//! The watchdog peripheral: its registers as plain values, and the
//! operations that the hardware offers on them.
use vstd::prelude::*;

verus! {

/// Most liveness channels that one activation can request.
pub const MAX_HANDLES: usize = 4;

/// Countdown period that the peripheral holds after a power-on reset.
pub const POWER_ON_TIMEOUT_TICKS: u32 = 0xFFFF_FFFF;

/// Lifecycle of the peripheral.
#[derive(Clone, Copy, Debug, PartialEq, Eq, Structural)]
pub enum WdtState {
    /// Never started since the last power cycle or watchdog reset.
    Unconfigured,
    /// Counting down; can no longer be reconfigured.
    Activated,
    /// A channel missed its deadline: the device is being reset.
    ResetPending,
}

/// One liveness channel as the hardware tracks it.
#[derive(Clone, Copy, Debug, PartialEq, Eq, Structural)]
pub struct Channel {
    /// Whether the channel was serviced in the current period since it was
    /// last queried.
    pub serviced: bool,
    /// Ticks left before the channel's deadline passes.
    pub remaining: u32,
}

/// The peripheral's state as a mathematical value.
pub struct WdtModel {
    pub state: WdtState,
    pub timeout_ticks: u32,
    pub channels: Seq<Channel>,
}

impl WdtModel {
    /// The channel set exists exactly when the peripheral was started, holds at
    /// most `MAX_HANDLES` channels, no deadline lies beyond one period, and a
    /// channel serviced in the current period has a full period ahead.
    pub open spec fn wf(self) -> bool {
        &&& self.channels.len() <= MAX_HANDLES
        &&& (self.state == WdtState::Unconfigured) == (self.channels.len() == 0)
        &&& forall|k: int|
            0 <= k < self.channels.len() ==> #[trigger] self.channels[k].remaining
                <= self.timeout_ticks
        &&& forall|k: int|
            0 <= k < self.channels.len() && (#[trigger] self.channels[k]).serviced
                ==> self.channels[k].remaining == self.timeout_ticks
    }
}

/// The state of a peripheral right after a power-on reset.
pub open spec fn power_on_model() -> WdtModel {
    WdtModel {
        state: WdtState::Unconfigured,
        timeout_ticks: POWER_ON_TIMEOUT_TICKS,
        channels: Seq::empty(),
    }
}

/// The state right after activation with `n` channels: every channel is
/// unserviced and has a full period ahead of it.
pub open spec fn activated_model(timeout_ticks: u32, n: nat) -> WdtModel {
    WdtModel {
        state: WdtState::Activated,
        timeout_ticks,
        channels: Seq::new(n, |k: int| Channel { serviced: false, remaining: timeout_ticks }),
    }
}

/// Servicing channel `i`: it is marked serviced and its deadline moves a full
/// period ahead.
pub open spec fn pet_spec(m: WdtModel, i: int) -> WdtModel {
    WdtModel {
        channels: m.channels.update(i, Channel { serviced: true, remaining: m.timeout_ticks }),
        ..m
    }
}

/// Querying channel `i` consumes its serviced flag.
pub open spec fn query_spec(m: WdtModel, i: int) -> WdtModel {
    WdtModel {
        channels: m.channels.update(i, Channel { serviced: false, ..m.channels[i] }),
        ..m
    }
}

/// A channel after `ticks` ticks of countdown. A new servicing period
/// begins, so no service is recorded in it yet.
pub open spec fn tick_channel(c: Channel, ticks: u32) -> Channel {
    Channel {
        serviced: false,
        remaining: if c.remaining > ticks {
            (c.remaining - ticks) as u32
        } else {
            0
        },
    }
}

/// Some channel's deadline passes within the next `ticks` ticks.
pub open spec fn deadline_passes(m: WdtModel, ticks: u32) -> bool {
    exists|k: int| 0 <= k < m.channels.len() && #[trigger] m.channels[k].remaining <= ticks
}

/// The peripheral after a period of `ticks` ticks: every countdown runs down,
/// every channel enters the next period unserviced, and a device reset is
/// forced as soon as any channel's deadline passes.
pub open spec fn advance_spec(m: WdtModel, ticks: u32) -> WdtModel {
    WdtModel {
        state: if deadline_passes(m, ticks) {
            WdtState::ResetPending
        } else {
            m.state
        },
        timeout_ticks: m.timeout_ticks,
        channels: m.channels.map_values(|c: Channel| tick_channel(c, ticks)),
    }
}

/// The raw peripheral resource, as obtained once at boot. Its state survives a
/// warm reset.
pub struct Wdt {
    state: WdtState,
    timeout_ticks: u32,
    channels: Vec<Channel>,
}

impl View for Wdt {
    type V = WdtModel;

    closed spec fn view(&self) -> WdtModel {
        WdtModel { state: self.state, timeout_ticks: self.timeout_ticks, channels: self.channels@ }
    }
}

impl Wdt {
    /// The peripheral as it comes out of a power cycle.
    pub fn power_on() -> (r: Wdt)
        ensures
            r@ == power_on_model(),
            r@.wf(),
    {
        let r = Wdt {
            state: WdtState::Unconfigured,
            timeout_ticks: POWER_ON_TIMEOUT_TICKS,
            channels: Vec::new(),
        };
        assert(r@.channels =~= Seq::<Channel>::empty());
        r
    }

    /// Whether the peripheral was already started.
    pub fn is_active(&self) -> (r: bool)
        ensures
            r == (self@.state != WdtState::Unconfigured),
    {
        match self.state {
            WdtState::Unconfigured => false,
            _ => true,
        }
    }

    /// Sets the countdown period of a peripheral that was not started yet.
    pub fn set_lfosc_ticks(&mut self, ticks: u32)
        requires
            old(self)@.wf(),
            old(self)@.state == WdtState::Unconfigured,
        ensures
            final(self)@ == (WdtModel { timeout_ticks: ticks, ..old(self)@ }),
            final(self)@.wf(),
    {
        self.timeout_ticks = ticks;
    }

    /// Starts the countdown with `handle_count` channels, each unserviced and
    /// a full period from its deadline.
    pub fn activate(self, handle_count: usize) -> (r: Watchdog)
        requires
            self@.wf(),
            self@.state == WdtState::Unconfigured,
            1 <= handle_count <= MAX_HANDLES,
        ensures
            r@ == activated_model(self@.timeout_ticks, handle_count as nat),
            r@.wf(),
    {
        let mut channels: Vec<Channel> = Vec::new();
        let mut k: usize = 0;
        while k < handle_count
            invariant
                k <= handle_count,
                channels@.len() == k,
                forall|j: int|
                    0 <= j < k ==> #[trigger] channels@[j] == (Channel {
                        serviced: false,
                        remaining: self.timeout_ticks,
                    }),
            decreases handle_count - k,
        {
            channels.push(Channel { serviced: false, remaining: self.timeout_ticks });
            k = k + 1;
        }
        let r = Watchdog {
            regs: Wdt { state: WdtState::Activated, timeout_ticks: self.timeout_ticks, channels },
        };
        assert(r@.channels =~= activated_model(self@.timeout_ticks, handle_count as nat).channels);
        r
    }

    /// Takes over a peripheral that is already counting down with exactly
    /// `handle_count` channels, leaving its state as it is; hands the
    /// resource back otherwise.
    pub fn try_recover(self, handle_count: usize) -> (r: Result<Watchdog, Wdt>)
        requires
            self@.wf(),
        ensures
            r is Ok <==> (self@.state == WdtState::Activated && self@.channels.len()
                == handle_count),
            r matches Ok(w) ==> w@ == self@,
            r matches Err(p) ==> p@ == self@,
    {
        match self.state {
            WdtState::Activated => {
                if self.channels.len() == handle_count {
                    Ok(Watchdog { regs: self })
                } else {
                    Err(self)
                }
            },
            _ => Err(self),
        }
    }
}

/// A liveness channel's identity. Handles are created only by activation or
/// recovery, one per channel, and cannot be copied.
pub struct WatchdogHandle {
    index: usize,
}

impl View for WatchdogHandle {
    type V = nat;

    closed spec fn view(&self) -> nat {
        self.index as nat
    }
}

impl WatchdogHandle {
    pub(crate) fn new(index: usize) -> (r: WatchdogHandle)
        ensures
            r@ == index,
    {
        WatchdogHandle { index }
    }

    /// Which channel this handle drives.
    pub fn index(&self) -> (r: usize)
        ensures
            r == self@,
    {
        self.index
    }
}

/// A started peripheral, reached through its handles.
pub struct Watchdog {
    regs: Wdt,
}

impl View for Watchdog {
    type V = WdtModel;

    closed spec fn view(&self) -> WdtModel {
        self.regs@
    }
}

impl Watchdog {
    /// Number of channels the peripheral was started with.
    pub fn handle_count(&self) -> (r: usize)
        ensures
            r == self@.channels.len(),
    {
        self.regs.channels.len()
    }

    /// Current lifecycle state.
    pub fn state(&self) -> (r: WdtState)
        ensures
            r == self@.state,
    {
        self.regs.state
    }

    /// Configured countdown period.
    pub fn timeout_ticks(&self) -> (r: u32)
        ensures
            r == self@.timeout_ticks,
    {
        self.regs.timeout_ticks
    }

    /// Reads a channel's registers without consuming its serviced flag.
    pub fn channel(&self, index: usize) -> (r: Channel)
        requires
            index < self@.channels.len(),
        ensures
            r == self@.channels[index as int],
    {
        self.regs.channels[index]
    }

    /// Services the handle's channel.
    pub fn pet(&mut self, handle: &WatchdogHandle)
        requires
            old(self)@.wf(),
            handle@ < old(self)@.channels.len(),
        ensures
            final(self)@ == pet_spec(old(self)@, handle@ as int),
            final(self)@.wf(),
    {
        let c = Channel { serviced: true, remaining: self.regs.timeout_ticks };
        self.regs.channels.set(handle.index, c);
    }

    /// Whether the handle's channel was serviced since the last query; the
    /// query clears that flag.
    pub fn is_pet(&mut self, handle: &WatchdogHandle) -> (r: bool)
        requires
            old(self)@.wf(),
            handle@ < old(self)@.channels.len(),
        ensures
            r == old(self)@.channels[handle@ as int].serviced,
            final(self)@ == query_spec(old(self)@, handle@ as int),
            final(self)@.wf(),
    {
        let c = self.regs.channels[handle.index];
        self.regs.channels.set(handle.index, Channel { serviced: false, ..c });
        c.serviced
    }

    /// Ends the current servicing period after `ticks` ticks of countdown;
    /// returns whether a device reset is now pending.
    pub fn advance(&mut self, ticks: u32) -> (reset: bool)
        requires
            old(self)@.wf(),
        ensures
            final(self)@ == advance_spec(old(self)@, ticks),
            final(self)@.wf(),
            reset == (final(self)@.state == WdtState::ResetPending),
    {
        let ghost before = self@;
        let n = self.regs.channels.len();
        let mut expired = false;
        let mut k: usize = 0;
        while k < n
            invariant
                k <= n,
                n == before.channels.len(),
                self@.state == before.state,
                self@.timeout_ticks == before.timeout_ticks,
                self@.channels.len() == n,
                forall|j: int|
                    0 <= j < k ==> #[trigger] self@.channels[j] == tick_channel(
                        before.channels[j],
                        ticks,
                    ),
                forall|j: int| k <= j < n ==> #[trigger] self@.channels[j] == before.channels[j],
                expired == exists|j: int|
                    0 <= j < k && #[trigger] before.channels[j].remaining <= ticks,
            decreases n - k,
        {
            let c = self.regs.channels[k];
            if c.remaining <= ticks {
                expired = true;
                self.regs.channels.set(k, Channel { serviced: false, remaining: 0 });
            } else {
                self.regs.channels.set(k, Channel { serviced: false, remaining: c.remaining - ticks });
            }
            k = k + 1;
        }
        if expired {
            self.regs.state = WdtState::ResetPending;
        }
        assert(self@.channels =~= advance_spec(before, ticks).channels);
        match self.regs.state {
            WdtState::ResetPending => true,
            _ => false,
        }
    }

    /// The raw resource after a warm reset. A soft reset leaves the peripheral
    /// running as it was; a reset that the watchdog forced returns it to its
    /// power-on state.
    pub fn warm_reset(self) -> (r: Wdt)
        requires
            self@.wf(),
        ensures
            self@.state == WdtState::ResetPending ==> r@ == power_on_model(),
            self@.state != WdtState::ResetPending ==> r@ == self@,
            r@.wf(),
    {
        match self.regs.state {
            WdtState::ResetPending => Wdt::power_on(),
            _ => self.regs,
        }
    }
}

/// `steps` countdown intervals, one after another.
pub open spec fn advance_all(m: WdtModel, steps: Seq<u32>) -> WdtModel
    decreases steps.len(),
{
    if steps.len() == 0 {
        m
    } else {
        advance_all(advance_spec(m, steps[0]), steps.drop_first())
    }
}

/// Total length of a series of countdown intervals.
pub open spec fn total_ticks(steps: Seq<u32>) -> int
    decreases steps.len(),
{
    if steps.len() == 0 {
        0
    } else {
        steps[0] + total_ticks(steps.drop_first())
    }
}

proof fn lemma_reset_stays(m: WdtModel, steps: Seq<u32>)
    requires
        m.state == WdtState::ResetPending,
    ensures
        advance_all(m, steps).state == WdtState::ResetPending,
    decreases steps.len(),
{
    if steps.len() > 0 {
        lemma_reset_stays(advance_spec(m, steps[0]), steps.drop_first());
    }
}

proof fn lemma_countdown_expires(m: WdtModel, i: int, steps: Seq<u32>)
    requires
        0 <= i < m.channels.len(),
        steps.len() > 0,
        total_ticks(steps) >= m.channels[i].remaining,
    ensures
        advance_all(m, steps).state == WdtState::ResetPending,
    decreases steps.len(),
{
    let next = advance_spec(m, steps[0]);
    if m.channels[i].remaining <= steps[0] {
        assert(deadline_passes(m, steps[0]));
        lemma_reset_stays(next, steps.drop_first());
    } else {
        assert(next.channels[i] == tick_channel(m.channels[i], steps[0]));
        assert(total_ticks(steps) == steps[0] + total_ticks(steps.drop_first()));
        if steps.drop_first().len() == 0 {
            assert(total_ticks(steps.drop_first()) == 0);
        }
        lemma_countdown_expires(next, i, steps.drop_first());
    }
}

/// A channel that is not serviced again within one full period of its last
/// service forces a device reset, however the time that passes is split into
/// countdown intervals (at least one of them).
pub proof fn lemma_unserviced_deadline(m: WdtModel, i: int, steps: Seq<u32>)
    requires
        m.wf(),
        0 <= i < m.channels.len(),
        m.channels[i].remaining == m.timeout_ticks,
        steps.len() > 0,
        total_ticks(steps) >= m.timeout_ticks,
    ensures
        advance_all(m, steps).state == WdtState::ResetPending,
{
    lemma_countdown_expires(m, i, steps);
}

} // verus!
