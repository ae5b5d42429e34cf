//! The per-task groomer: each period it checks one handle's liveness, drives
//! a health indicator, and services the handle.
use vstd::prelude::*;
use crate::peripheral::{advance_spec, pet_spec, query_spec, WdtModel, Watchdog, WatchdogHandle};

verus! {

/// State of a task's health indicator.
#[derive(Clone, Copy, Debug, PartialEq, Eq, Structural)]
pub enum Indicator {
    /// The groomer had to service the handle itself (output driven low).
    Fault,
    /// The handle was already serviced when it was checked (output driven high).
    Healthy,
}

/// What a groomer does once it knows whether its handle was serviced.
#[derive(Clone, Copy, Debug, PartialEq, Eq, Structural)]
pub struct GroomAction {
    /// Whether the handle is to be serviced now.
    pub service: bool,
    /// The state to drive the indicator to.
    pub indicator: Indicator,
}

/// The indicator state for a check that found the handle serviced or not.
pub open spec fn indicator_for(already_serviced: bool) -> Indicator {
    if already_serviced {
        Indicator::Healthy
    } else {
        Indicator::Fault
    }
}

/// The peripheral and the indicator after grooming channel `i`: the query
/// consumes the serviced flag, and a channel that was not serviced is
/// serviced now.
pub open spec fn groom_spec(m: WdtModel, i: int) -> (WdtModel, Indicator) {
    let already = m.channels[i].serviced;
    let queried = query_spec(m, i);
    (if already {
        queried
    } else {
        pet_spec(queried, i)
    }, indicator_for(already))
}

/// Decides the groomer's step: service the handle exactly when it was not
/// already serviced, and report which of the two held.
pub fn groom_action(already_serviced: bool) -> (r: GroomAction)
    ensures
        r.service == !already_serviced,
        r.indicator == indicator_for(already_serviced),
{
    if already_serviced {
        GroomAction { service: false, indicator: Indicator::Healthy }
    } else {
        GroomAction { service: true, indicator: Indicator::Fault }
    }
}

/// One period of supervision for `handle`: query it, service it if nobody
/// did, and drive `indicator` accordingly.
pub fn groomer_task(indicator: &mut Indicator, watchdog: &mut Watchdog, handle: &WatchdogHandle)
    requires
        old(watchdog)@.wf(),
        handle@ < old(watchdog)@.channels.len(),
    ensures
        (final(watchdog)@, *final(indicator)) == groom_spec(old(watchdog)@, handle@ as int),
        final(watchdog)@.wf(),
        final(watchdog)@.channels[handle@ as int].remaining == old(watchdog)@.timeout_ticks,
{
    let already = watchdog.is_pet(handle);
    let action = groom_action(already);
    if action.service {
        watchdog.pet(handle);
    }
    *indicator = action.indicator;
}

/// One check of a handle always leaves its channel serviced for the current
/// period: either a service was already recorded in this period, or the
/// channel is serviced now. Either way its countdown is full afterwards. The peripheral's
/// lifecycle state and countdown period are untouched.
pub proof fn lemma_groom_services(m: WdtModel, i: int)
    requires
        m.wf(),
        0 <= i < m.channels.len(),
    ensures
        ({
            let after = groom_spec(m, i).0;
            &&& m.channels[i].serviced || after.channels[i].serviced
            &&& after.channels[i].remaining == m.timeout_ticks
            &&& after.channels.len() == m.channels.len()
            &&& after.state == m.state
            &&& after.timeout_ticks == m.timeout_ticks
            &&& after.wf()
        }),
{
}

/// Grooming or servicing one channel leaves every other channel as it was.
pub proof fn lemma_channels_independent(m: WdtModel, i: int, j: int)
    requires
        m.wf(),
        0 <= i < m.channels.len(),
        0 <= j < m.channels.len(),
        i != j,
    ensures
        groom_spec(m, i).0.channels[j] == m.channels[j],
        pet_spec(m, i).channels[j] == m.channels[j],
{
}

/// Where the groomer is its handle's only servicer, every check that follows a
/// period boundary finds the handle unserviced: the groomer services it itself,
/// with a full period ahead, and reports it.
pub proof fn lemma_sole_servicer_services(m: WdtModel, i: int, ticks: u32)
    requires
        m.wf(),
        0 <= i < m.channels.len(),
    ensures
        ({
            let next = advance_spec(m, ticks);
            let (after, indicator) = groom_spec(next, i);
            &&& indicator == Indicator::Fault
            &&& after.channels[i].serviced
            &&& after.channels[i].remaining == m.timeout_ticks
        }),
{
}

} // verus!
