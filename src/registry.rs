//! Claiming the watchdog at boot: activation of a fresh peripheral, or
//! recovery of one that a warm reset left running.
use vstd::prelude::*;
use crate::peripheral::{
    activated_model, advance_all, lemma_unserviced_deadline, total_ticks, Channel, Wdt, WdtModel,
    WdtState, Watchdog, WatchdogHandle, MAX_HANDLES,
};

verus! {

/// Frequency of the low-frequency oscillator that drives the countdown.
pub const LFOSC_HZ: u32 = 32768;

/// Countdown period used at boot: five seconds.
pub const BOOT_TIMEOUT_TICKS: u32 = 5 * LFOSC_HZ;

/// Number of liveness channels requested at boot.
pub const BOOT_HANDLE_COUNT: usize = 4;

/// How the peripheral was claimed.
#[derive(Clone, Copy, Debug, PartialEq, Eq, Structural)]
pub enum Activation {
    /// It was not running: it was configured and started.
    Fresh,
    /// It was left running by a warm reset: it was taken over and every
    /// channel was serviced at once.
    Recovered,
}

/// The peripheral is running in a state that cannot be taken over (another
/// channel count, or a reset underway). Boot cannot go on safely.
#[derive(Clone, Copy, Debug, PartialEq, Eq, Structural)]
pub struct RecoveryFailed;

/// A claimed peripheral and one handle per channel.
pub struct Parts {
    pub watchdog: Watchdog,
    pub handles: Vec<WatchdogHandle>,
    pub activation: Activation,
}

/// Handle `k` drives channel `k`, for each of the `n` channels.
pub open spec fn handles_cover(handles: Seq<WatchdogHandle>, n: nat) -> bool {
    &&& handles.len() == n
    &&& forall|k: int| 0 <= k < n ==> #[trigger] handles[k]@ == k
}

/// A peripheral can be claimed with `n` channels when it was never started,
/// or when it runs with exactly `n` channels.
pub open spec fn claimable(m: WdtModel, n: nat) -> bool {
    ||| m.state == WdtState::Unconfigured
    ||| (m.state == WdtState::Activated && m.channels.len() == n)
}

/// A running peripheral after every one of its channels was serviced.
pub open spec fn all_serviced(m: WdtModel) -> WdtModel {
    WdtModel {
        channels: Seq::new(
            m.channels.len(),
            |k: int| Channel { serviced: true, remaining: m.timeout_ticks },
        ),
        ..m
    }
}

/// The state that a successful claim leaves the peripheral in.
pub open spec fn claimed_model(m: WdtModel, timeout_ticks: u32, n: nat) -> WdtModel {
    if m.state == WdtState::Unconfigured {
        activated_model(timeout_ticks, n)
    } else {
        all_serviced(m)
    }
}

fn make_handles(n: usize) -> (r: Vec<WatchdogHandle>)
    ensures
        handles_cover(r@, n as nat),
{
    let mut handles: Vec<WatchdogHandle> = Vec::new();
    let mut k: usize = 0;
    while k < n
        invariant
            k <= n,
            handles_cover(handles@, k as nat),
        decreases n - k,
    {
        handles.push(WatchdogHandle::new(k));
        k = k + 1;
    }
    handles
}

/// What the boot protocol has learnt about the peripheral so far.
#[derive(Clone, Copy, Debug, PartialEq, Eq, Structural)]
pub enum ClaimEvent {
    /// The peripheral was found not running.
    Inactive,
    /// The peripheral was found already running.
    Active,
    /// The running peripheral was taken over with the requested channel count.
    RecoverAccepted,
    /// The running peripheral could not be taken over.
    RecoverRejected,
}

/// What the boot protocol does next.
#[derive(Clone, Copy, Debug, PartialEq, Eq, Structural)]
pub enum ClaimAction {
    /// Set the countdown period and start the peripheral with `handle_count`
    /// channels; boot then goes on.
    Activate { timeout_ticks: u32, handle_count: usize },
    /// Try to take over the running peripheral with `handle_count` channels.
    Recover { handle_count: usize },
    /// Service each of the `handle_count` recovered channels once; boot then
    /// goes on.
    ServiceAll { handle_count: usize },
    /// Boot cannot go on with the watchdog in an unknown state: halt.
    Halt,
}

/// One step of the boot protocol: a peripheral that is not running is
/// activated; one that is running is recovered, and then either fully
/// serviced or, if recovery was refused, the boot halts.
pub fn claim_step(event: ClaimEvent, timeout_ticks: u32, handle_count: usize) -> (r: ClaimAction)
    ensures
        event == ClaimEvent::Inactive ==> r == (ClaimAction::Activate {
            timeout_ticks,
            handle_count,
        }),
        event == ClaimEvent::Active ==> r == (ClaimAction::Recover { handle_count }),
        event == ClaimEvent::RecoverAccepted ==> r == (ClaimAction::ServiceAll { handle_count }),
        event == ClaimEvent::RecoverRejected ==> r == ClaimAction::Halt,
{
    match event {
        ClaimEvent::Inactive => ClaimAction::Activate { timeout_ticks, handle_count },
        ClaimEvent::Active => ClaimAction::Recover { handle_count },
        ClaimEvent::RecoverAccepted => ClaimAction::ServiceAll { handle_count },
        ClaimEvent::RecoverRejected => ClaimAction::Halt,
    }
}

fn service_all(watchdog: &mut Watchdog, handles: &Vec<WatchdogHandle>, handle_count: usize)
    requires
        old(watchdog)@.wf(),
        old(watchdog)@.channels.len() == handle_count,
        handles_cover(handles@, handle_count as nat),
    ensures
        final(watchdog)@ == all_serviced(old(watchdog)@),
        final(watchdog)@.wf(),
{
    let ghost start = watchdog@;
    let mut k: usize = 0;
    while k < handle_count
        invariant
            k <= handle_count,
            handles_cover(handles@, handle_count as nat),
            start.wf(),
            start.channels.len() == handle_count,
            watchdog@.wf(),
            watchdog@.state == start.state,
            watchdog@.timeout_ticks == start.timeout_ticks,
            watchdog@.channels.len() == handle_count,
            forall|j: int|
                0 <= j < k ==> #[trigger] watchdog@.channels[j] == (Channel {
                    serviced: true,
                    remaining: start.timeout_ticks,
                }),
            forall|j: int|
                k <= j < handle_count ==> #[trigger] watchdog@.channels[j] == start.channels[j],
        decreases handle_count - k,
    {
        watchdog.pet(&handles[k]);
        k = k + 1;
    }
    assert(watchdog@.channels =~= all_serviced(start).channels);
}

/// Claims the peripheral by running the boot protocol of `claim_step`. A
/// peripheral that never ran is given the countdown `timeout_ticks` and
/// started with `handle_count` unserviced channels. One that runs with
/// `handle_count` channels keeps its countdown period and has every channel
/// serviced, so that boot gets a full period. Any other state is a recovery
/// failure, on which the protocol halts.
pub fn claim_and_activate(wdt: Wdt, timeout_ticks: u32, handle_count: usize) -> (r: Result<
    Parts,
    RecoveryFailed,
>)
    requires
        wdt@.wf(),
        1 <= handle_count <= MAX_HANDLES,
    ensures
        r is Ok <==> claimable(wdt@, handle_count as nat),
        r matches Ok(p) ==> {
            &&& p.watchdog@ == claimed_model(wdt@, timeout_ticks, handle_count as nat)
            &&& p.watchdog@.wf()
            &&& handles_cover(p.handles@, handle_count as nat)
            &&& p.activation == if wdt@.state == WdtState::Unconfigured {
                Activation::Fresh
            } else {
                Activation::Recovered
            }
        },
{
    let first = if wdt.is_active() {
        ClaimEvent::Active
    } else {
        ClaimEvent::Inactive
    };
    match claim_step(first, timeout_ticks, handle_count) {
        ClaimAction::Activate { timeout_ticks, handle_count } => {
            let mut wdt = wdt;
            wdt.set_lfosc_ticks(timeout_ticks);
            let watchdog = wdt.activate(handle_count);
            let handles = make_handles(handle_count);
            Ok(Parts { watchdog, handles, activation: Activation::Fresh })
        },
        ClaimAction::Recover { handle_count } => {
            let (event, recovered) = match wdt.try_recover(handle_count) {
                Ok(watchdog) => (ClaimEvent::RecoverAccepted, Some(watchdog)),
                Err(_) => (ClaimEvent::RecoverRejected, None),
            };
            match (claim_step(event, timeout_ticks, handle_count), recovered) {
                (ClaimAction::ServiceAll { handle_count }, Some(watchdog)) => {
                    let mut watchdog = watchdog;
                    let handles = make_handles(handle_count);
                    service_all(&mut watchdog, &handles, handle_count);
                    Ok(Parts { watchdog, handles, activation: Activation::Recovered })
                },
                _ => Err(RecoveryFailed),
            }
        },
        _ => {
            proof {
                assert(false);
            }
            Err(RecoveryFailed)
        },
    }
}

/// Boot-time claim: a five second countdown and four channels.
pub fn init_watchdogs(wdt: Wdt) -> (r: Result<Parts, RecoveryFailed>)
    requires
        wdt@.wf(),
    ensures
        r is Ok <==> claimable(wdt@, BOOT_HANDLE_COUNT as nat),
        r matches Ok(p) ==> {
            &&& p.watchdog@ == claimed_model(wdt@, BOOT_TIMEOUT_TICKS, BOOT_HANDLE_COUNT as nat)
            &&& p.watchdog@.wf()
            &&& handles_cover(p.handles@, BOOT_HANDLE_COUNT as nat)
            &&& p.activation == if wdt@.state == WdtState::Unconfigured {
                Activation::Fresh
            } else {
                Activation::Recovered
            }
        },
{
    claim_and_activate(wdt, BOOT_TIMEOUT_TICKS, BOOT_HANDLE_COUNT)
}

/// A peripheral that never ran is always claimed: it ends up running with
/// exactly `n` channels, each unserviced, each with the full countdown
/// `timeout_ticks` ahead of it.
pub proof fn lemma_fresh_activation(m: WdtModel, timeout_ticks: u32, n: nat)
    requires
        m.wf(),
        m.state == WdtState::Unconfigured,
        1 <= n <= MAX_HANDLES,
    ensures
        claimable(m, n),
        ({
            let a = claimed_model(m, timeout_ticks, n);
            &&& a.wf()
            &&& a.state == WdtState::Activated
            &&& a.timeout_ticks == timeout_ticks
            &&& a.channels.len() == n
            &&& forall|k: int|
                0 <= k < n ==> !(#[trigger] a.channels[k]).serviced && a.channels[k].remaining
                    == timeout_ticks
        }),
{
}

/// Claiming a peripheral again after a warm reset, with the channel count it
/// runs with, always succeeds; it keeps the countdown period that was set
/// first, leaves every channel freshly serviced with a full period ahead, and
/// a further claim changes nothing more.
pub proof fn lemma_recovery_idempotent(m: WdtModel, timeout_ticks: u32, n: nat)
    requires
        m.wf(),
        m.state == WdtState::Activated,
        m.channels.len() == n,
    ensures
        claimable(m, n),
        ({
            let a = claimed_model(m, timeout_ticks, n);
            &&& a.wf()
            &&& a.state == WdtState::Activated
            &&& a.timeout_ticks == m.timeout_ticks
            &&& a.channels.len() == n
            &&& forall|k: int|
                0 <= k < n ==> (#[trigger] a.channels[k]).serviced && a.channels[k].remaining
                    == m.timeout_ticks
            &&& claimable(a, n)
            &&& claimed_model(a, timeout_ticks, n) == a
        }),
{
    let a = claimed_model(m, timeout_ticks, n);
    assert(all_serviced(a).channels =~= a.channels);
}

/// A running peripheral whose channel count differs from the one requested
/// cannot be claimed.
pub proof fn lemma_recovery_mismatch(m: WdtModel, n: nat)
    requires
        m.state != WdtState::Unconfigured,
        m.channels.len() != n,
    ensures
        !claimable(m, n),
{
}

/// After a successful claim, a channel that is not serviced again within one
/// full countdown period of the claim forces a device reset, whether the
/// peripheral was activated or recovered (at least one countdown interval
/// has to pass).
pub proof fn lemma_claimed_deadline(
    m: WdtModel,
    timeout_ticks: u32,
    n: nat,
    i: int,
    steps: Seq<u32>,
)
    requires
        m.wf(),
        1 <= n <= MAX_HANDLES,
        claimable(m, n),
        0 <= i < n,
        steps.len() > 0,
        total_ticks(steps) >= claimed_model(m, timeout_ticks, n).timeout_ticks,
    ensures
        advance_all(claimed_model(m, timeout_ticks, n), steps).state == WdtState::ResetPending,
{
    let a = claimed_model(m, timeout_ticks, n);
    assert(a.wf());
    assert(a.channels[i].remaining == a.timeout_ticks);
    lemma_unserviced_deadline(a, i, steps);
}

} // verus!
