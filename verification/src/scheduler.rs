//! The debounce scheduler: a periodic timer as a state machine over elapsed
//! time. The host owns the clock; the scheduler says how many triggers are due.

use vstd::prelude::*;
use vstd::arithmetic::div_mod::lemma_fundamental_div_mod_converse;

verus! {

/// The debounce interval of a scheduler made without one, in time units.
pub const DEFAULT_INTERVAL: u32 = 400;

/// Why a scheduler refused an operation.
#[derive(Clone, Copy, PartialEq, Eq, Debug, Structural)]
pub enum SchedulerError {
    /// The interval was zero: no cadence can be derived from it.
    ZeroInterval,
    /// The timer is armed already; a second one must not be started.
    AlreadyRunning,
}

/// The mathematical value of a scheduler.
pub struct SchedulerView {
    /// The time between two triggers.
    pub interval: nat,
    /// Whether the timer is armed.
    pub running: bool,
    /// The time that has passed since the timer was armed or last fired.
    pub phase: nat,
}

impl SchedulerView {
    /// An idle scheduler remembers no phase; an armed one is always less
    /// than one interval away from its last trigger.
    pub open spec fn wf(self) -> bool {
        &&& self.interval > 0
        &&& self.phase < self.interval
        &&& !self.running ==> self.phase == 0
    }

    /// The idle scheduler with the given interval.
    pub open spec fn idle(interval: nat) -> SchedulerView {
        SchedulerView { interval, running: false, phase: 0 }
    }

    /// The scheduler after its timer was armed.
    pub open spec fn started(self) -> SchedulerView {
        SchedulerView { running: true, phase: 0, ..self }
    }

    /// The scheduler after its timer was cancelled.
    pub open spec fn stopped(self) -> SchedulerView {
        SchedulerView { running: false, phase: 0, ..self }
    }

    /// The number of triggers that fall due while `elapsed` time units pass.
    pub open spec fn triggers_within(self, elapsed: nat) -> nat {
        if self.running {
            (self.phase + elapsed) / self.interval
        } else {
            0
        }
    }

    /// The scheduler after `elapsed` time units have passed.
    pub open spec fn advanced(self, elapsed: nat) -> SchedulerView {
        if self.running {
            SchedulerView { phase: (self.phase + elapsed) % self.interval, ..self }
        } else {
            self
        }
    }
}

/// A periodic timer with a fixed interval, either idle or running.
#[derive(Debug)]
pub struct DebounceScheduler {
    interval: u32,
    running: bool,
    phase: u32,
}

impl DebounceScheduler {
    #[verifier::type_invariant]
    spec fn well_formed(self) -> bool {
        self@.wf()
    }

    pub closed spec fn view(&self) -> SchedulerView {
        SchedulerView {
            interval: self.interval as nat,
            running: self.running,
            phase: self.phase as nat,
        }
    }

    /// An idle scheduler with the given interval. A zero interval is refused.
    pub fn new(interval: u32) -> (made: Result<DebounceScheduler, SchedulerError>)
        ensures
            interval == 0 <==> made.is_err(),
            made matches Err(e) ==> e == SchedulerError::ZeroInterval,
            made matches Ok(s) ==> s@ == SchedulerView::idle(interval as nat) && s@.wf(),
    {
        if interval == 0 {
            Err(SchedulerError::ZeroInterval)
        } else {
            Ok(DebounceScheduler { interval, running: false, phase: 0 })
        }
    }

    /// An idle scheduler with the default interval.
    pub fn with_default_interval() -> (made: DebounceScheduler)
        ensures
            made@ == SchedulerView::idle(DEFAULT_INTERVAL as nat),
            made@.wf(),
    {
        DebounceScheduler { interval: DEFAULT_INTERVAL, running: false, phase: 0 }
    }

    /// The time between two triggers. It is never zero.
    pub fn interval(&self) -> (interval: u32)
        ensures
            interval == self@.interval,
            interval > 0,
            self@.wf(),
    {
        proof {
            use_type_invariant(self);
        }
        self.interval
    }

    /// Whether the timer is armed.
    pub fn is_running(&self) -> (running: bool)
        ensures
            running == self@.running,
            self@.wf(),
    {
        proof {
            use_type_invariant(self);
        }
        self.running
    }

    /// Arms the timer. A scheduler that is running already refuses and stays
    /// as it is, so that no second timer comes to life beside the first.
    pub fn start(&mut self) -> (done: Result<(), SchedulerError>)
        ensures
            old(self)@.running <==> done.is_err(),
            done matches Err(e) ==> e == SchedulerError::AlreadyRunning && final(self)@ == old(
                self,
            )@,
            done.is_ok() ==> final(self)@ == old(self)@.started(),
            final(self)@.wf(),
        no_unwind
    {
        proof {
            use_type_invariant(&*self);
        }
        if self.running {
            Err(SchedulerError::AlreadyRunning)
        } else {
            self.running = true;
            Ok(())
        }
    }

    /// Cancels the timer. An idle scheduler stays idle.
    pub fn stop(&mut self)
        ensures
            final(self)@ == old(self)@.stopped(),
            final(self)@.wf(),
        no_unwind
    {
        proof {
            use_type_invariant(&*self);
        }
        *self = DebounceScheduler { interval: self.interval, running: false, phase: 0 };
    }

    /// Lets `elapsed` time units pass and gives the number of triggers that
    /// fell due in them. An idle scheduler never fires.
    pub fn advance(&mut self, elapsed: u64) -> (fired: u64)
        ensures
            fired == old(self)@.triggers_within(elapsed as nat),
            final(self)@ == old(self)@.advanced(elapsed as nat),
            final(self)@.wf(),
    {
        proof {
            use_type_invariant(&*self);
        }
        if !self.running {
            return 0;
        }
        let interval: u64 = self.interval as u64;
        let whole: u64 = elapsed / interval;
        let rest: u64 = elapsed % interval;
        let carried: u64 = self.phase as u64 + rest;
        let ghost total: int = self.phase as int + elapsed as int;
        assert(elapsed == whole * interval + rest) by (nonlinear_arith)
            requires
                interval > 0,
                whole == elapsed / interval,
                rest == elapsed % interval,
        ;
        if carried >= interval {
            assert(whole + 1 <= u64::MAX) by (nonlinear_arith)
                requires
                    interval >= 2,
                    whole * interval + rest == elapsed,
                    rest >= 1,
                    elapsed <= u64::MAX,
                    whole >= 0,
            ;
            let left: u64 = carried - interval;
            proof {
                assert(total == (whole + 1) * interval + left) by (nonlinear_arith)
                    requires
                        total == self.phase + elapsed,
                        elapsed == whole * interval + rest,
                        left == self.phase + rest - interval,
                ;
                lemma_fundamental_div_mod_converse(
                    total,
                    interval as int,
                    whole + 1,
                    left as int,
                );
            }
            self.phase = left as u32;
            whole + 1
        } else {
            proof {
                lemma_fundamental_div_mod_converse(
                    total,
                    interval as int,
                    whole as int,
                    carried as int,
                );
            }
            self.phase = carried as u32;
            whole
        }
    }

    /// One tick of the host's timer, which comes once per interval: tells
    /// whether it is a trigger. It is one exactly while the scheduler runs, so
    /// a tick that arrives after a cancellation is never a trigger.
    pub fn tick(&self) -> (fired: bool)
        ensures
            fired == self@.running,
            self@.triggers_within(self@.interval) == (if fired { 1nat } else { 0nat }),
            self@.advanced(self@.interval) == self@,
    {
        proof {
            use_type_invariant(self);
            lemma_whole_interval(self@);
        }
        self.running
    }
}

/// When exactly one interval passes, a running scheduler fires once and is
/// in the same phase as before.
pub proof fn lemma_whole_interval(s: SchedulerView)
    requires
        s.wf(),
    ensures
        s.triggers_within(s.interval) == (if s.running { 1nat } else { 0nat }),
        s.advanced(s.interval) == s,
{
    if s.running {
        lemma_fundamental_div_mod_converse(
            (s.phase + s.interval) as int,
            s.interval as int,
            1,
            s.phase as int,
        );
    }
}

/// Each transition leaves a well-formed scheduler well-formed.
pub proof fn lemma_transitions_keep_well_formed(s: SchedulerView, elapsed: nat)
    requires
        s.wf(),
    ensures
        s.started().wf(),
        s.stopped().wf(),
        s.advanced(elapsed).wf(),
{
    if s.running {
        let i = s.interval as int;
        let x = (s.phase + elapsed) as int;
        assert(0 <= x % i < i) by (nonlinear_arith)
            requires
                i > 0,
        ;
    }
}

/// The cadence of a running scheduler: over a duration `d` the triggers are
/// those at whole multiples of the interval, counted from the last one. Their
/// number is `floor(d / interval)` or one more; from a fresh start it is
/// `floor(d / interval)` exactly.
pub proof fn lemma_cadence(s: SchedulerView, d: nat)
    requires
        s.wf(),
        s.running,
    ensures
        s.triggers_within(d) * s.interval <= s.phase + d < (s.triggers_within(d) + 1) * s.interval,
        d / s.interval <= s.triggers_within(d) <= d / s.interval + 1,
        s.phase == 0 ==> s.triggers_within(d) == d / s.interval,
        s.started().triggers_within(d) == d / s.interval,
{
    let i = s.interval as int;
    let p = s.phase as int;
    let x = p + d;
    let n = x / i;
    let e = d as int;
    let q = e / i;
    assert(x == i * n + x % i && 0 <= x % i < i && e == i * q + e % i && 0 <= e % i < i) by (nonlinear_arith)
        requires
            i > 0,
            n == x / i,
            q == e / i,
    ;
    assert(n * i <= x < (n + 1) * i) by (nonlinear_arith)
        requires
            x == i * n + x % i,
            0 <= x % i < i,
    ;
    assert(q <= n <= q + 1) by (nonlinear_arith)
        requires
            x == i * n + x % i,
            0 <= x % i < i,
            e == i * q + e % i,
            0 <= e % i < i,
            x == p + e,
            0 <= p < i,
    ;
}

/// Time adds up: letting `a` and then `b` time units pass fires as many
/// triggers, and ends in the same state, as letting `a + b` pass at once.
pub proof fn lemma_advance_adds_up(s: SchedulerView, a: nat, b: nat)
    requires
        s.wf(),
    ensures
        s.advanced(a).advanced(b) == s.advanced(a + b),
        s.triggers_within(a) + s.advanced(a).triggers_within(b) == s.triggers_within(a + b),
{
    if s.running {
        let i = s.interval as int;
        let x = (s.phase + a) as int;
        let n = x / i;
        let r = x % i;
        let m = (r + b) / i;
        let t = (r + b) % i;
        assert(x == i * n + r && 0 <= r < i && r + b == i * m + t && 0 <= t < i) by (nonlinear_arith)
            requires
                i > 0,
                n == x / i,
                r == x % i,
                m == (r + b) / i,
                t == (r + b) % i,
        ;
        assert(x + b == (n + m) * i + t) by (nonlinear_arith)
            requires
                x == i * n + r,
                r + b == i * m + t,
        ;
        lemma_fundamental_div_mod_converse(x + b, i, n + m, t);
        assert(s.phase + (a + b) == x + b);
    }
}

/// A stopped scheduler fires no further trigger, however much time passes,
/// and no tick moves it.
pub proof fn lemma_stopped_never_fires(s: SchedulerView, elapsed: nat)
    ensures
        s.stopped().triggers_within(elapsed) == 0,
        s.stopped().advanced(elapsed) == s.stopped(),
{
}

} // verus!
