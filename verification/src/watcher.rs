//! Certificate-change watcher: a state machine that turns filesystem
//! notifications into an advisory reload signal.
//!
//! The machine observes a directory, sets a shared flag when a certificate
//! file is modified or created, and clears the flag again a fixed delay
//! later, whether or not anything consumed it. Delivery from the filesystem
//! callback to the consumer loop goes through a bounded channel whose
//! producer never suspends: a full channel drops the event.

use vstd::prelude::*;

verus! {

/// Number of consumer-loop ticks between a triggering event and the
/// automatic clearing of the reload signal: the fixed clear delay, one tick
/// per second.
pub const CLEAR_DELAY_TICKS: u64 = 5;

/// Classification of a filesystem notification.
#[derive(Clone, Copy, PartialEq, Eq, Structural, Debug)]
pub enum WatchEventKind {
    Modify,
    Create,
    Remove,
    Access,
    Other,
}

impl WatchEventKind {
    /// A notification triggers the reload signal exactly when it reports a
    /// modification or a creation; removals, accesses and everything else
    /// are ignored.
    pub open spec fn is_trigger_spec(self) -> bool {
        self == WatchEventKind::Modify || self == WatchEventKind::Create
    }

    pub fn is_trigger(self) -> (r: bool)
        ensures
            r == self.is_trigger_spec(),
    {
        match self {
            WatchEventKind::Modify => true,
            WatchEventKind::Create => true,
            _ => false,
        }
    }
}

/// An ephemeral filesystem notification: the affected path and how the
/// change was classified. Not persisted anywhere.
pub struct WatchEvent {
    pub path: String,
    pub kind: WatchEventKind,
}

/// The advisory shared flag: set when a watched certificate file changes,
/// cleared again a fixed delay later. It records that a change was seen; it
/// does not mark any reload as done.
pub struct ReloadSignal {
    pub pending: bool,
}

impl ReloadSignal {
    pub fn new() -> (r: Self)
        ensures
            !r.pending,
    {
        ReloadSignal { pending: false }
    }

    pub fn set(&mut self)
        ensures
            final(self).pending,
    {
        self.pending = true;
    }

    pub fn clear(&mut self)
        ensures
            !final(self).pending,
    {
        self.pending = false;
    }

    pub fn is_pending(&self) -> (r: bool)
        ensures
            r == self.pending,
    {
        self.pending
    }
}

/// Phase of the watcher state machine.
#[derive(Clone, Copy, PartialEq, Eq, Structural, Debug)]
pub enum WatcherPhase {
    /// Not started (mutual TLS disabled, or before startup).
    Idle,
    /// Observing the directory, signal off.
    Watching,
    /// A triggering event was seen; the signal is on and the clear delay is
    /// counting down.
    SignalSet { remaining_ticks: u64 },
    /// The delay elapsed and the signal was just cleared; the next tick
    /// resumes watching.
    SignalClearing,
}

/// The certificate watcher: current phase plus the reload signal it drives.
/// The surrounding process feeds it events and delay ticks; the machine
/// decides every transition.
pub struct CertWatcher {
    pub phase: WatcherPhase,
    pub signal: ReloadSignal,
}

impl CertWatcher {
    /// Well-formedness: the signal is pending exactly while the clear delay
    /// is counting down, and the countdown stays within the fixed delay.
    pub open spec fn wf(self) -> bool {
        match self.phase {
            WatcherPhase::SignalSet { remaining_ticks } => self.signal.pending
                && 1 <= remaining_ticks <= CLEAR_DELAY_TICKS,
            _ => !self.signal.pending,
        }
    }

    /// The machine has been started and reacts to events.
    pub open spec fn started(self) -> bool {
        self.phase != WatcherPhase::Idle
    }

    pub fn new() -> (r: Self)
        ensures
            r.wf(),
            r.phase == WatcherPhase::Idle,
            !r.signal.pending,
    {
        CertWatcher { phase: WatcherPhase::Idle, signal: ReloadSignal::new() }
    }

    /// Startup decision: the watcher begins observing only when mutual TLS
    /// is enabled; otherwise it stays idle for the process lifetime.
    pub fn start(&mut self, enable_mtls: bool)
        requires
            old(self).wf(),
            old(self).phase == WatcherPhase::Idle,
        ensures
            final(self).wf(),
            enable_mtls ==> final(self).phase == WatcherPhase::Watching,
            !enable_mtls ==> final(self).phase == WatcherPhase::Idle,
            !final(self).signal.pending,
    {
        if enable_mtls {
            self.phase = WatcherPhase::Watching;
        }
    }

    /// What receiving one notification does: a modify or create event on a
    /// started machine turns the signal on and restarts the clear countdown;
    /// every other event, and any event before startup, changes nothing.
    pub open spec fn on_event_spec(self, kind: WatchEventKind) -> CertWatcher {
        if self.started() && kind.is_trigger_spec() {
            CertWatcher {
                phase: WatcherPhase::SignalSet { remaining_ticks: CLEAR_DELAY_TICKS },
                signal: ReloadSignal { pending: true },
            }
        } else {
            self
        }
    }

    pub fn on_event(&mut self, ev: &WatchEvent)
        requires
            old(self).wf(),
        ensures
            final(self).wf(),
            *final(self) == old(self).on_event_spec(ev.kind),
            old(self).started() && ev.kind.is_trigger_spec() ==> final(self).signal.pending,
            !(old(self).started() && ev.kind.is_trigger_spec()) ==> *final(self) == *old(self),
    {
        let started = match self.phase {
            WatcherPhase::Idle => false,
            _ => true,
        };
        if started && ev.kind.is_trigger() {
            self.phase = WatcherPhase::SignalSet { remaining_ticks: CLEAR_DELAY_TICKS };
            self.signal.set();
        }
    }

    /// What one delay tick does: while the countdown runs it decrements;
    /// when it reaches its end the signal is cleared; a cleared machine
    /// resumes watching; otherwise nothing changes.
    pub open spec fn on_tick_spec(self) -> CertWatcher {
        match self.phase {
            WatcherPhase::SignalSet { remaining_ticks } => if remaining_ticks > 1 {
                CertWatcher {
                    phase: WatcherPhase::SignalSet {
                        remaining_ticks: (remaining_ticks - 1) as u64,
                    },
                    signal: self.signal,
                }
            } else {
                CertWatcher {
                    phase: WatcherPhase::SignalClearing,
                    signal: ReloadSignal { pending: false },
                }
            },
            WatcherPhase::SignalClearing => CertWatcher {
                phase: WatcherPhase::Watching,
                signal: self.signal,
            },
            _ => self,
        }
    }

    pub fn on_tick(&mut self)
        requires
            old(self).wf(),
        ensures
            final(self).wf(),
            *final(self) == old(self).on_tick_spec(),
    {
        match self.phase {
            WatcherPhase::SignalSet { remaining_ticks } => {
                if remaining_ticks > 1 {
                    self.phase = WatcherPhase::SignalSet {
                        remaining_ticks: remaining_ticks - 1,
                    };
                } else {
                    self.phase = WatcherPhase::SignalClearing;
                    self.signal.clear();
                }
            }
            WatcherPhase::SignalClearing => {
                self.phase = WatcherPhase::Watching;
            }
            _ => {}
        }
    }

    pub fn signal_pending(&self) -> (r: bool)
        ensures
            r == self.signal.pending,
    {
        self.signal.is_pending()
    }

    /// The machine after `n` delay ticks and no events.
    pub open spec fn run_ticks(self, n: nat) -> CertWatcher
        decreases n,
    {
        if n == 0 {
            self
        } else {
            self.on_tick_spec().run_ticks((n - 1) as nat)
        }
    }
}

proof fn lemma_run_ticks_snoc(w: CertWatcher, n: nat)
    ensures
        w.run_ticks(n + 1) == w.run_ticks(n).on_tick_spec(),
    decreases n,
{
    if n == 0 {
        assert(w.run_ticks(1) == w.on_tick_spec().run_ticks(0));
        assert(w.run_ticks(0) == w);
    } else {
        lemma_run_ticks_snoc(w.on_tick_spec(), (n - 1) as nat);
    }
}

/// While the clear countdown runs, ticks keep the signal pending: after `k`
/// ticks with `k` strictly below the remaining delay, the machine is still
/// in the countdown with `k` fewer ticks to go.
pub proof fn lemma_signal_holds_before_delay(w: CertWatcher, r: u64, k: nat)
    requires
        w.wf(),
        w.phase == (WatcherPhase::SignalSet { remaining_ticks: r }),
        k < r,
    ensures
        w.run_ticks(k).wf(),
        w.run_ticks(k).phase == (WatcherPhase::SignalSet { remaining_ticks: (r - k) as u64 }),
        w.run_ticks(k).signal.pending,
    decreases k,
{
    if k > 0 {
        lemma_signal_holds_before_delay(w.on_tick_spec(), (r - 1) as u64, (k - 1) as nat);
    }
}

/// A machine that is not counting down and whose signal is off stays that
/// way under ticks: the signal can only come on again through an event.
pub proof fn lemma_quiet_ticks(w: CertWatcher, k: nat)
    requires
        w.wf(),
        !(w.phase matches WatcherPhase::SignalSet { .. }),
    ensures
        w.run_ticks(k).wf(),
        !(w.run_ticks(k).phase matches WatcherPhase::SignalSet { .. }),
        !w.run_ticks(k).signal.pending,
    decreases k,
{
    if k > 0 {
        lemma_quiet_ticks(w.on_tick_spec(), (k - 1) as nat);
    }
}

/// The reload signal reverts exactly once per triggering event: after a
/// trigger it stays pending for every tick count strictly below the fixed
/// delay, is off once the delay has elapsed, and remains off under all
/// further ticks until another event arrives.
pub proof fn lemma_signal_clears_once_after_delay(w: CertWatcher, kind: WatchEventKind)
    requires
        w.wf(),
        w.started(),
        kind.is_trigger_spec(),
    ensures
        forall|k: nat|
            k < CLEAR_DELAY_TICKS ==> #[trigger] w.on_event_spec(kind).run_ticks(
                k,
            ).signal.pending,
        forall|k: nat|
            k >= CLEAR_DELAY_TICKS ==> !#[trigger] w.on_event_spec(kind).run_ticks(
                k,
            ).signal.pending,
{
    let t = w.on_event_spec(kind);
    assert forall|k: nat| k < CLEAR_DELAY_TICKS implies #[trigger] t.run_ticks(
        k,
    ).signal.pending by {
        lemma_signal_holds_before_delay(t, CLEAR_DELAY_TICKS, k);
    }
    assert forall|k: nat| k >= CLEAR_DELAY_TICKS implies !#[trigger] t.run_ticks(
        k,
    ).signal.pending by {
        lemma_signal_holds_before_delay(t, CLEAR_DELAY_TICKS, (CLEAR_DELAY_TICKS - 1) as nat);
        lemma_run_ticks_snoc(t, (CLEAR_DELAY_TICKS - 1) as nat);
        lemma_run_ticks_advance(t, CLEAR_DELAY_TICKS as nat, (k - CLEAR_DELAY_TICKS) as nat);
        lemma_quiet_ticks(t.run_ticks(CLEAR_DELAY_TICKS as nat), (k - CLEAR_DELAY_TICKS) as nat);
    }
}

proof fn lemma_run_ticks_advance(w: CertWatcher, m: nat, n: nat)
    ensures
        w.run_ticks(m + n) == w.run_ticks(m).run_ticks(n),
    decreases m,
{
    if m > 0 {
        lemma_run_ticks_advance(w.on_tick_spec(), (m - 1) as nat, n);
    }
}

/// With mutual TLS disabled the watcher is never started, and an idle
/// machine keeps the signal off whatever mix of events and ticks arrives:
/// the signal stays false for the process lifetime.
pub proof fn lemma_idle_signal_stays_false(w: CertWatcher, kind: WatchEventKind, k: nat)
    requires
        w.wf(),
        w.phase == WatcherPhase::Idle,
    ensures
        w.on_event_spec(kind) == w,
        !w.run_ticks(k).signal.pending,
        w.run_ticks(k) == w,
{
    lemma_quiet_ticks(w, k);
    assert(w.run_ticks(k) == w) by {
        lemma_idle_ticks_fixed(w, k);
    }
}

proof fn lemma_idle_ticks_fixed(w: CertWatcher, k: nat)
    requires
        w.phase == WatcherPhase::Idle,
    ensures
        w.run_ticks(k) == w,
    decreases k,
{
    if k > 0 {
        lemma_idle_ticks_fixed(w.on_tick_spec(), (k - 1) as nat);
    }
}

/// Bounded channel between the filesystem callback (producer) and the
/// consumer loop. The producer never suspends: sending into a full channel
/// drops the event.
pub struct EventChannel {
    pub queue: Vec<WatchEvent>,
    pub capacity: usize,
}

impl EventChannel {
    pub open spec fn wf(self) -> bool {
        self.capacity >= 1 && self.queue@.len() <= self.capacity
    }

    pub fn new(capacity: usize) -> (r: Self)
        requires
            capacity >= 1,
        ensures
            r.wf(),
            r.capacity == capacity,
            r.queue@.len() == 0,
    {
        EventChannel { queue: Vec::new(), capacity }
    }

    /// Non-suspending send: the event is queued when there is room and
    /// dropped when the channel is full.
    pub fn try_send(&mut self, ev: WatchEvent) -> (accepted: bool)
        requires
            old(self).wf(),
        ensures
            final(self).wf(),
            final(self).capacity == old(self).capacity,
            accepted == (old(self).queue@.len() < old(self).capacity),
            accepted ==> final(self).queue@ == old(self).queue@.push(ev),
            !accepted ==> final(self).queue@ == old(self).queue@,
    {
        if self.queue.len() < self.capacity {
            self.queue.push(ev);
            true
        } else {
            false
        }
    }

    /// Receive the oldest queued event, if any.
    pub fn recv(&mut self) -> (r: Option<WatchEvent>)
        requires
            old(self).wf(),
        ensures
            final(self).wf(),
            final(self).capacity == old(self).capacity,
            old(self).queue@.len() == 0 ==> r is None && final(self).queue@
                == old(self).queue@,
            old(self).queue@.len() > 0 ==> r == Some(old(self).queue@[0])
                && final(self).queue@ == old(self).queue@.drop_first(),
    {
        if self.queue.len() > 0 {
            let ev = self.queue.remove(0);
            assert(final(self).queue@ =~= old(self).queue@.drop_first());
            Some(ev)
        } else {
            None
        }
    }
}

/// What the producer did with one raw notification.
#[derive(Clone, Copy, PartialEq, Eq, Structural, Debug)]
pub enum ProducerAction {
    /// A modify or create event, queued for the consumer.
    Forwarded,
    /// A modify or create event that arrived while the channel was full;
    /// dropped rather than stalling the callback.
    Dropped,
    /// Any other kind of event; never sent.
    Ignored,
}

/// The filesystem callback's half of the pipeline: classify the
/// notification, forward modify and create events through the channel
/// without suspending, and ignore every other kind.
pub fn producer_step(chan: &mut EventChannel, ev: WatchEvent) -> (a: ProducerAction)
    requires
        old(chan).wf(),
    ensures
        final(chan).wf(),
        final(chan).capacity == old(chan).capacity,
        !ev.kind.is_trigger_spec() ==> a == ProducerAction::Ignored && final(chan).queue@
            == old(chan).queue@,
        ev.kind.is_trigger_spec() && old(chan).queue@.len() < old(chan).capacity ==> a
            == ProducerAction::Forwarded && final(chan).queue@ == old(chan).queue@.push(ev),
        ev.kind.is_trigger_spec() && old(chan).queue@.len() >= old(chan).capacity ==> a
            == ProducerAction::Dropped && final(chan).queue@ == old(chan).queue@,
{
    if ev.kind.is_trigger() {
        if chan.try_send(ev) {
            ProducerAction::Forwarded
        } else {
            ProducerAction::Dropped
        }
    } else {
        ProducerAction::Ignored
    }
}

/// The consumer loop's half: take the oldest queued event, if any, and feed
/// it to the machine. Returns whether an event was processed.
pub fn consumer_step(w: &mut CertWatcher, chan: &mut EventChannel) -> (processed: bool)
    requires
        old(w).wf(),
        old(chan).wf(),
    ensures
        final(w).wf(),
        final(chan).wf(),
        final(chan).capacity == old(chan).capacity,
        old(chan).queue@.len() == 0 ==> !processed && *final(w) == *old(w) && final(chan).queue@
            == old(chan).queue@,
        old(chan).queue@.len() > 0 ==> processed && *final(w) == old(w).on_event_spec(
            old(chan).queue@[0].kind,
        ) && final(chan).queue@ == old(chan).queue@.drop_first(),
{
    match chan.recv() {
        Some(ev) => {
            w.on_event(&ev);
            true
        }
        None => false,
    }
}

} // verus!
