//! A single countdown timer of one phase (work or break).
//!
//! A timer remembers the clock instant at which it was made (its epoch) and
//! holds every later clock reading as nanoseconds since that epoch: the
//! reading at its last start and the reading at its last pause. The time left
//! is kept in nanoseconds as of the last start or pause; while the timer runs,
//! the time since the last start counts against it.
//!
//! Each operation that reads the clock has a companion (`*_at`) that takes the
//! readings as arguments and is specified exactly; the operation itself reads
//! the clock of the timer's epoch through [`crate::clock`] and hands the
//! readings to its companion.
use vstd::prelude::*;
use std::time::Instant;
use crate::clock::{duration_nanos, elapsed_between, instant_now};

verus! {

/// Nanoseconds in one second.
pub const NANOS_PER_SEC: u128 = 1_000_000_000;

/// Where a timer stands in its life.
#[derive(Debug, Clone, Copy, PartialEq, Eq, Structural)]
pub enum TimerState {
    Created,
    Running,
    Paused,
    Finished,
}

/// The phase that a timer measures.
#[derive(Debug, Clone, Copy, PartialEq, Eq, Structural)]
pub enum TimerType {
    Work,
    Break,
}

/// What a timer is, apart from its epoch.
pub struct TimerView {
    /// Length of the phase, in seconds.
    pub duration: nat,
    /// Time still to run, in nanoseconds, as of the last start or pause.
    pub time_left: nat,
    pub state: TimerState,
    pub kind: TimerType,
    /// Clock reading (nanoseconds since the epoch) at the last start.
    pub start: nat,
    /// Clock reading (nanoseconds since the epoch) at the last pause.
    pub pause: nat,
    /// The latest clock reading the timer has taken: none of its later
    /// readings is earlier (the clock is monotonic).
    pub latest: nat,
}

/// The larger of `a` and `b`.
pub open spec fn max_nat(a: nat, b: nat) -> nat {
    if a >= b { a } else { b }
}

/// `a - b`, or zero where `b` is not smaller.
pub open spec fn saturating_diff(a: nat, b: nat) -> nat {
    if a > b { (a - b) as nat } else { 0 }
}

impl TimerView {
    /// The whole length of the phase in nanoseconds.
    pub open spec fn total_nanos(self) -> nat {
        self.duration * (NANOS_PER_SEC as nat)
    }

    /// The invariant every timer keeps.
    pub open spec fn wf(self) -> bool {
        &&& self.duration <= u64::MAX
        &&& self.time_left <= self.total_nanos()
        &&& self.state == TimerState::Created ==> self.time_left == self.total_nanos()
        &&& self.state == TimerState::Finished ==> self.time_left == 0
        &&& self.start <= self.latest
        &&& self.pause <= self.latest
    }

    /// A timer as it is made: not started, its whole length left, both
    /// readings at the epoch.
    pub open spec fn new_timer(duration: nat, kind: TimerType) -> TimerView {
        TimerView {
            duration,
            time_left: duration * (NANOS_PER_SEC as nat),
            state: TimerState::Created,
            kind,
            start: 0,
            pause: 0,
            latest: 0,
        }
    }

    /// Whether the timer is untouched: created (or reset) and with its whole
    /// length left.
    pub open spec fn is_fresh(self) -> bool {
        self.state == TimerState::Created && self.time_left == self.total_nanos()
    }

    /// Nanoseconds from the last start to the reading `now` (zero for a
    /// reading before it).
    pub open spec fn elapsed_at(self, now: nat) -> nat {
        saturating_diff(now, self.start)
    }

    /// The effect of `finish`: a running or paused timer ends with nothing
    /// left; nothing else changes.
    pub open spec fn finished(self) -> TimerView {
        match self.state {
            TimerState::Running | TimerState::Paused => TimerView {
                time_left: 0,
                state: TimerState::Finished,
                ..self
            },
            _ => self,
        }
    }

    /// The timer after it has taken the reading `now`.
    pub open spec fn seen(self, now: nat) -> TimerView {
        TimerView { latest: max_nat(self.latest, now), ..self }
    }

    /// The effect of the clock check at reading `now`: a running timer takes
    /// the reading, and finishes when its time since the last start has used
    /// up what was left. A timer that does not run is not checked.
    pub open spec fn expired_at(self, now: nat) -> TimerView {
        if self.state != TimerState::Running {
            self
        } else if self.elapsed_at(now) >= self.time_left {
            self.seen(now).finished()
        } else {
            self.seen(now)
        }
    }

    /// The effect of starting at reading `now`: a created or paused timer runs
    /// from `now` (the time it was paused is not charged); a running timer
    /// only gets the clock check; a finished timer stays as it is.
    pub open spec fn started_at(self, now: nat) -> TimerView {
        match self.state {
            TimerState::Created | TimerState::Paused => TimerView {
                state: TimerState::Running,
                start: now,
                latest: max_nat(self.latest, now),
                ..self
            },
            _ => self.expired_at(now),
        }
    }

    /// The effect of pausing, with the clock check at reading `check` and the
    /// pause at reading `now`: a timer still running after the check is paused
    /// at `now`, and the time from its last start to `now` is taken off what
    /// was left, down to zero.
    pub open spec fn paused_at(self, check: nat, now: nat) -> TimerView {
        let t = self.expired_at(check);
        if t.state == TimerState::Running {
            TimerView {
                time_left: saturating_diff(t.time_left, t.elapsed_at(now)),
                state: TimerState::Paused,
                pause: now,
                latest: max_nat(t.latest, now),
                ..t
            }
        } else {
            t
        }
    }

    /// The effect of resetting: anything but a created timer goes back to its
    /// whole length, not started; the readings are kept.
    pub open spec fn reset(self) -> TimerView {
        if self.state == TimerState::Created {
            self
        } else {
            TimerView {
                time_left: self.total_nanos(),
                state: TimerState::Created,
                ..self
            }
        }
    }

    /// Whole seconds left at reading `now` (the time since the last start only
    /// counts while running).
    pub open spec fn remaining_secs_at(self, now: nat) -> nat {
        if self.state == TimerState::Running {
            saturating_diff(self.time_left, self.elapsed_at(now)) / (NANOS_PER_SEC as nat)
        } else {
            self.time_left / (NANOS_PER_SEC as nat)
        }
    }

    /// The status triple that the timer reports at reading `now`.
    pub open spec fn status_at(self, now: nat) -> (u64, TimerState, TimerType) {
        (self.remaining_secs_at(now) as u64, self.state, self.kind)
    }
}

/// A part of at most `d` whole seconds has at most `d` whole seconds.
proof fn lemma_secs_bounded(a: nat, d: nat)
    requires
        a <= d * (NANOS_PER_SEC as nat),
    ensures
        a / (NANOS_PER_SEC as nat) <= d,
{
    assert(a / 1_000_000_000nat <= d) by (nonlinear_arith)
        requires
            a <= d * 1_000_000_000nat,
    ;
}

/// A countdown timer for one phase.
pub struct Timer {
    epoch: Instant,
    start_time: u128,
    pause_time: u128,
    latest_reading: u128,
    duration_secs: u64,
    time_left_nanos: u128,
    state: TimerState,
    my_type: TimerType,
}

impl View for Timer {
    type V = TimerView;

    closed spec fn view(&self) -> TimerView {
        TimerView {
            duration: self.duration_secs as nat,
            time_left: self.time_left_nanos as nat,
            state: self.state,
            kind: self.my_type,
            start: self.start_time as nat,
            pause: self.pause_time as nat,
            latest: self.latest_reading as nat,
        }
    }
}

impl Timer {
    /// The clock instant from which the timer's readings count.
    pub closed spec fn epoch(&self) -> Instant {
        self.epoch
    }

    /// The timer's invariant (it always holds).
    pub open spec fn wf(&self) -> bool {
        self@.wf()
    }

    #[verifier::type_invariant]
    spec fn inv(&self) -> bool {
        self@.wf()
    }

    /// Two timers with the same view and the same epoch are the same timer.
    pub proof fn lemma_ext(a: Timer, b: Timer)
        requires
            a@ == b@,
            a.epoch() == b.epoch(),
        ensures
            a == b,
    {
    }

    /// A timer of `seconds` seconds for a phase of kind `timer_type`, not yet
    /// started; its epoch is the clock at this call.
    pub fn new(seconds: u64, timer_type: TimerType) -> (t: Timer)
        ensures
            t.wf(),
            t@ == TimerView::new_timer(seconds as nat, timer_type),
    {
        let total: u128 = (seconds as u128) * NANOS_PER_SEC;
        Timer {
            epoch: instant_now(),
            start_time: 0,
            pause_time: 0,
            latest_reading: 0,
            duration_secs: seconds,
            time_left_nanos: total,
            state: TimerState::Created,
            my_type: timer_type,
        }
    }

    /// The length of the phase, in seconds.
    pub fn duration(&self) -> (d: u64)
        ensures
            d == self@.duration,
    {
        self.duration_secs
    }

    /// Reads the clock: nanoseconds from the timer's epoch to now. The clock
    /// is monotonic, so a reading is never earlier than the latest one the
    /// timer has taken; the result is held to that.
    fn clock_reading(&self) -> (now: u128)
        ensures
            now >= self@.latest,
    {
        let instant = instant_now();
        let elapsed = elapsed_between(&self.epoch, &instant);
        let now = duration_nanos(&elapsed);
        if now < self.latest_reading {
            self.latest_reading
        } else {
            now
        }
    }

    /// The clock check at reading `now`: a running timer records the reading,
    /// and finishes when its time since the last start has used up what was
    /// left. A timer that does not run is left as it is.
    pub fn time_update_at(&mut self, now: u128)
        ensures
            final(self).wf(),
            final(self)@ == old(self)@.expired_at(now as nat),
            final(self).epoch() == old(self).epoch(),
    {
        proof {
            use_type_invariant(&*self);
        }
        if let TimerState::Running = self.state {
            if now > self.latest_reading {
                self.latest_reading = now;
            }
            let elapsed: u128 = if now > self.start_time {
                now - self.start_time
            } else {
                0
            };
            if elapsed >= self.time_left_nanos {
                self.finish();
            }
        }
        proof {
            use_type_invariant(&*self);
        }
    }

    /// Checks the clock: a running timer whose time since the last start has
    /// used up what was left finishes. Nothing else changes. The check is made
    /// at a reading no earlier than any the timer took before.
    pub fn time_update(&mut self)
        ensures
            final(self).wf(),
            exists|now: nat| now >= old(self)@.latest && final(self)@ == #[trigger] old(self)@.expired_at(now),
            final(self).epoch() == old(self).epoch(),
    {
        proof {
            use_type_invariant(&*self);
        }
        if let TimerState::Running = self.state {
            let now = self.clock_reading();
            self.time_update_at(now);
        } else {
            proof {
                assert(self@ == old(self)@.expired_at(old(self)@.latest));
            }
        }
    }

    /// Starting at reading `now`: a created or paused timer runs from `now`; a
    /// running timer gets the clock check at `now`; a finished timer stays.
    pub fn start_at(&mut self, now: u128)
        ensures
            final(self).wf(),
            final(self)@ == old(self)@.started_at(now as nat),
            final(self).epoch() == old(self).epoch(),
    {
        proof {
            use_type_invariant(&*self);
        }
        self.time_update_at(now);
        match self.state {
            TimerState::Created | TimerState::Paused => {
                if now > self.latest_reading {
                    self.latest_reading = now;
                }
                self.start_time = now;
                self.state = TimerState::Running;
            },
            _ => {},
        }
        proof {
            use_type_invariant(&*self);
        }
    }

    /// Starts a created timer or resumes a paused one from the clock's reading
    /// now, which is no earlier than any reading the timer took before (so the
    /// paused time is not charged). A running timer only gets the clock check;
    /// a finished one stays as it is.
    pub fn start(&mut self)
        ensures
            final(self).wf(),
            exists|now: nat| now >= old(self)@.latest && final(self)@ == #[trigger] old(self)@.started_at(now),
            final(self).epoch() == old(self).epoch(),
    {
        let now = self.clock_reading();
        self.start_at(now);
    }

    /// Pausing with the clock check at reading `check` and the pause at
    /// reading `now`: a timer still running after the check is paused at
    /// `now`, and the time from its last start to `now` is taken off what was
    /// left, down to zero. Any other timer is left as the check leaves it.
    pub fn pause_at(&mut self, check: u128, now: u128)
        ensures
            final(self).wf(),
            final(self)@ == old(self)@.paused_at(check as nat, now as nat),
            final(self).epoch() == old(self).epoch(),
    {
        proof {
            use_type_invariant(&*self);
        }
        self.time_update_at(check);
        if let TimerState::Running = self.state {
            let elapsed: u128 = if now > self.start_time {
                now - self.start_time
            } else {
                0
            };
            let left: u128 = if self.time_left_nanos > elapsed {
                self.time_left_nanos - elapsed
            } else {
                0
            };
            if now > self.latest_reading {
                self.latest_reading = now;
            }
            self.pause_time = now;
            self.time_left_nanos = left;
            self.state = TimerState::Paused;
        }
        proof {
            use_type_invariant(&*self);
        }
    }

    /// Pauses a running timer, after the clock check: what ran since the last
    /// start up to the pause is taken off what was left. The check and the
    /// pause are read from the clock in that order, the check no earlier than
    /// any reading the timer took before. Any other timer is left as it is.
    pub fn pause(&mut self)
        ensures
            final(self).wf(),
            exists|check: nat, now: nat|
                check >= old(self)@.latest && now >= check && final(self)@ == #[trigger] old(self)@.paused_at(
                    check,
                    now,
                ),
            final(self).epoch() == old(self).epoch(),
    {
        proof {
            use_type_invariant(&*self);
        }
        if let TimerState::Running = self.state {
            let check = self.clock_reading();
            let later = self.clock_reading();
            let now = if later < check {
                check
            } else {
                later
            };
            self.pause_at(check, now);
        } else {
            proof {
                assert(self@ == old(self)@.paused_at(old(self)@.latest, old(self)@.latest));
            }
        }
    }

    /// Puts any started timer back to its whole length, not running. A created
    /// timer is left as it is. (Whether a running timer's time is used up
    /// makes no difference here, so no clock check is needed.)
    pub fn reset(&mut self)
        ensures
            final(self).wf(),
            final(self)@ == old(self)@.reset(),
            final(self).epoch() == old(self).epoch(),
    {
        proof {
            use_type_invariant(&*self);
        }
        match self.state {
            TimerState::Running | TimerState::Paused | TimerState::Finished => {
                *self = Timer {
                    time_left_nanos: (self.duration_secs as u128) * NANOS_PER_SEC,
                    state: TimerState::Created,
                    ..*self
                };
            },
            _ => {},
        }
    }

    /// Ends a running or paused timer with nothing left; a created or finished
    /// timer is left as it is.
    pub fn finish(&mut self)
        ensures
            final(self).wf(),
            final(self)@ == old(self)@.finished(),
            final(self).epoch() == old(self).epoch(),
    {
        proof {
            use_type_invariant(&*self);
        }
        match self.state {
            TimerState::Running | TimerState::Paused => {
                *self = Timer { time_left_nanos: 0, state: TimerState::Finished, ..*self };
            },
            TimerState::Finished => {},
            TimerState::Created => {},
        }
    }

    /// The status at reading `now`: whole seconds left, state and kind.
    pub fn status_at(&self, now: u128) -> (status: (u64, TimerState, TimerType))
        ensures
            status == self@.status_at(now as nat),
            status.0 <= self@.duration,
    {
        proof {
            use_type_invariant(self);
            lemma_secs_bounded(self@.time_left, self@.duration);
            lemma_secs_bounded(
                saturating_diff(self@.time_left, self@.elapsed_at(now as nat)),
                self@.duration,
            );
        }
        if let TimerState::Running = self.state {
            let elapsed: u128 = if now > self.start_time {
                now - self.start_time
            } else {
                0
            };
            if self.time_left_nanos > elapsed {
                let remaining = ((self.time_left_nanos - elapsed) / NANOS_PER_SEC) as u64;
                return (remaining, self.state, self.my_type);
            }
            return (0, self.state, self.my_type);
        }
        ((self.time_left_nanos / NANOS_PER_SEC) as u64, self.state, self.my_type)
    }

    /// Whole seconds left (while running, counting the time since the last
    /// start up to the clock's reading now), state and kind.
    pub fn get_current_status(&self) -> (status: (u64, TimerState, TimerType))
        ensures
            exists|now: nat| now >= self@.latest && status == #[trigger] self@.status_at(now),
            status.0 <= self@.duration,
    {
        if let TimerState::Running = self.state {
            let now = self.clock_reading();
            return self.status_at(now);
        }
        proof {
            assert(self@.status_at(0) == self@.status_at(self@.latest));
        }
        self.status_at(0)
    }
}

} // verus!
