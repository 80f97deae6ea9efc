//! The Pomodoro cycle: a fixed sequence of work and break timers, one of which
//! is current at any time.
use vstd::prelude::*;
use crate::timer::{Timer, TimerState, TimerType, TimerView};
use std::time::Instant;

verus! {

/// What the cycle reports on each tick: seconds left, state and kind of the
/// current timer, whether it has been started, the session number (the work
/// phase the current timer belongs to, counted from zero) and the number of
/// completed cycles.
pub type TickReport = (u64, TimerState, TimerType, bool, usize, u32);

/// Number of timers in a cycle with `long_break_interval` work sessions.
pub open spec fn cycle_len(long_break_interval: nat) -> nat {
    if long_break_interval == 0 { 1 } else { 2 * long_break_interval }
}

/// The timers of a fresh cycle: work and short break in turn, with the long
/// break in place of the last short break.
pub open spec fn cycle_plan(
    long_break_interval: nat,
    work_time: nat,
    short_break_time: nat,
    long_break_time: nat,
) -> Seq<TimerView> {
    Seq::new(
        cycle_len(long_break_interval),
        |i: int|
            if i == cycle_len(long_break_interval) - 1 {
                TimerView::new_timer(long_break_time, TimerType::Break)
            } else if i % 2 == 0 {
                TimerView::new_timer(work_time, TimerType::Work)
            } else {
                TimerView::new_timer(short_break_time, TimerType::Break)
            },
    )
}

/// What a cycle is, apart from its timers' epochs.
pub struct PomodoroView {
    pub auto_start_work: bool,
    pub auto_start_break: bool,
    pub timers: Seq<TimerView>,
    pub cycle_count: nat,
    pub timer_pointer: nat,
}

impl PomodoroView {
    /// The invariant every cycle keeps: there is a current timer, every timer
    /// keeps its own invariant, and every timer but the current one is fresh.
    pub open spec fn wf(self) -> bool {
        &&& self.timers.len() >= 1
        &&& self.timer_pointer < self.timers.len()
        &&& forall|i: int| 0 <= i < self.timers.len() ==> (#[trigger] self.timers[i]).wf()
        &&& forall|i: int|
            0 <= i < self.timers.len() && i != self.timer_pointer ==> (#[trigger] self.timers[i]).is_fresh()
    }

    /// Both cycles have the same phases in the same order, with the same
    /// lengths.
    pub open spec fn same_plan(self, other: PomodoroView) -> bool {
        &&& self.timers.len() == other.timers.len()
        &&& forall|i: int|
            0 <= i < self.timers.len() ==> (#[trigger] self.timers[i]).duration == other.timers[i].duration
                && self.timers[i].kind == other.timers[i].kind
    }

    pub open spec fn current(self) -> TimerView {
        self.timers[self.timer_pointer as int]
    }

    pub open spec fn with_current(self, t: TimerView) -> PomodoroView {
        PomodoroView { timers: self.timers.update(self.timer_pointer as int, t), ..self }
    }

    /// The position a move forward goes to.
    pub open spec fn next_pointer(self) -> nat {
        ((self.timer_pointer + 1) % self.timers.len()) as nat
    }

    /// The latest clock reading taken by the timer a move forward goes to.
    pub open spec fn next_latest(self) -> nat {
        self.timers[self.next_pointer() as int].latest
    }

    /// Whether a timer of this kind starts by itself when the cycle moves to it.
    pub open spec fn auto_starts(self, kind: TimerType) -> bool {
        (self.auto_start_work && kind == TimerType::Work) || (self.auto_start_break
            && kind == TimerType::Break)
    }

    /// The effect of `reset_current`.
    pub open spec fn current_reset(self) -> PomodoroView {
        self.with_current(self.current().reset())
    }

    /// The effect of `start` at reading `now`: a created or paused current
    /// timer starts from `now`; any other is left as it is.
    pub open spec fn started_at(self, now: nat) -> PomodoroView {
        if self.current().state == TimerState::Created || self.current().state == TimerState::Paused {
            self.with_current(self.current().started_at(now))
        } else {
            self
        }
    }

    /// The effect of `pause` with the clock check at reading `check` and the
    /// pause at reading `now`.
    pub open spec fn paused_at(self, check: nat, now: nat) -> PomodoroView {
        self.with_current(self.current().paused_at(check, now))
    }

    /// The effect of `forward` at reading `now`: the current timer is reset,
    /// the next one becomes current (counting a completed cycle when the
    /// sequence wraps), and it starts by itself from `now` where its kind is
    /// set to do so.
    pub open spec fn forwarded_at(self, now: nat) -> PomodoroView {
        let v1 = self.current_reset();
        let p = ((self.timer_pointer + 1) % self.timers.len()) as nat;
        let v2 = PomodoroView {
            timer_pointer: p,
            cycle_count: if p == 0 { self.cycle_count + 1 } else { self.cycle_count },
            ..v1
        };
        if v2.auto_starts(v2.current().kind) {
            v2.with_current(v2.current().started_at(now))
        } else {
            v2
        }
    }

    /// Whether `forward` can count a completed cycle without leaving `u32`.
    pub open spec fn can_forward(self) -> bool {
        self.timer_pointer + 1 < self.timers.len() || self.cycle_count < u32::MAX
    }

    /// Whether a tick keeps the cycle count within `u32`: either a move
    /// forward can count a cycle, or the current timer cannot finish on the
    /// clock check (it is created or paused).
    pub open spec fn can_tick(self) -> bool {
        self.can_forward() || self.current().state == TimerState::Created
            || self.current().state == TimerState::Paused
    }

    /// The effect of a tick with the clock check at reading `check`: the
    /// current timer is checked and, when it has finished, the cycle moves
    /// forward at reading `now`.
    pub open spec fn ticked_at(self, check: nat, now: nat) -> PomodoroView {
        let v1 = self.with_current(self.current().expired_at(check));
        if v1.current().state == TimerState::Finished {
            v1.forwarded_at(now)
        } else {
            v1
        }
    }

    /// The report of the current timer at reading `now`.
    pub open spec fn report_at(self, now: nat) -> TickReport {
        let t = self.current();
        (
            t.remaining_secs_at(now) as u64,
            t.state,
            t.kind,
            t.state != TimerState::Created,
            (self.timer_pointer / 2) as usize,
            self.cycle_count as u32,
        )
    }
}

/// A Pomodoro cycle of work and break timers.
pub struct Pomodoro {
    auto_start_work: bool,
    auto_start_break: bool,
    timers: Vec<Timer>,
    cycle_count: u32,
    timer_pointer: usize,
}

impl View for Pomodoro {
    type V = PomodoroView;

    closed spec fn view(&self) -> PomodoroView {
        PomodoroView {
            auto_start_work: self.auto_start_work,
            auto_start_break: self.auto_start_break,
            timers: self.timers@.map_values(|t: Timer| t@),
            cycle_count: self.cycle_count as nat,
            timer_pointer: self.timer_pointer as nat,
        }
    }
}

impl Pomodoro {
    /// The cycle's invariant, with the bounds its machine integers give.
    pub open spec fn wf(&self) -> bool {
        &&& self@.wf()
        &&& self@.cycle_count <= u32::MAX
        &&& self@.timers.len() <= usize::MAX
    }

    /// The timers themselves, in order.
    pub closed spec fn timer_seq(&self) -> Seq<Timer> {
        self.timers@
    }

    /// The epochs of the timers, in order.
    pub open spec fn epochs(&self) -> Seq<Instant> {
        self.timer_seq().map_values(|t: Timer| t.epoch())
    }

    /// Two cycles with the same view and the same epochs hold the same timers.
    pub proof fn lemma_timers_ext(a: &Pomodoro, b: &Pomodoro)
        requires
            a@ == b@,
            a.epochs() == b.epochs(),
        ensures
            a.timer_seq() == b.timer_seq(),
    {
        a.lemma_view_timers();
        b.lemma_view_timers();
        assert(a.timers@.len() == b.timers@.len());
        assert forall|i: int| 0 <= i < a.timers@.len() implies a.timers@[i] == b.timers@[i] by {
            assert(a@.timers[i] == a.timers@[i]@);
            assert(b@.timers[i] == b.timers@[i]@);
            assert(a.epochs()[i] == a.timers@[i].epoch());
            assert(b.epochs()[i] == b.timers@[i].epoch());
            Timer::lemma_ext(a.timers@[i], b.timers@[i]);
        }
        assert(a.timers@ =~= b.timers@);
    }

    proof fn lemma_view_timers(&self)
        ensures
            self@.timers.len() == self.timers@.len(),
            forall|i: int| 0 <= i < self.timers@.len() ==> #[trigger] self@.timers[i] == self.timers@[i]@,
            self@.timer_pointer == self.timer_pointer,
            self@.cycle_count == self.cycle_count,
            self.epochs().len() == self.timers@.len(),
            forall|i: int| 0 <= i < self.timers@.len() ==> #[trigger] self.epochs()[i] == self.timers@[i].epoch(),
    {
    }

    /// A cycle of `long_break_interval` work sessions of `work_time` seconds,
    /// each followed by a short break of `short_break_time` seconds, except the
    /// last, which is followed by a long break of `long_break_time` seconds.
    /// With no work session the cycle is the long break alone. The first timer
    /// is current and nothing has started.
    pub fn new(
        long_break_interval: u64,
        work_time: u64,
        short_break_time: u64,
        long_break_time: u64,
        asw: bool,
        asb: bool,
    ) -> (p: Pomodoro)
        requires
            2 * long_break_interval <= usize::MAX,
        ensures
            p.wf(),
            p@.timers == cycle_plan(
                long_break_interval as nat,
                work_time as nat,
                short_break_time as nat,
                long_break_time as nat,
            ),
            p@.timer_pointer == 0,
            p@.cycle_count == 0,
            p@.auto_start_work == asw,
            p@.auto_start_break == asb,
    {
        let ghost plan = cycle_plan(
            long_break_interval as nat,
            work_time as nat,
            short_break_time as nat,
            long_break_time as nat,
        );
        let ghost n = cycle_len(long_break_interval as nat);
        let mut timers: Vec<Timer> = Vec::new();
        let mut i: u64 = 0;
        while i < long_break_interval
            invariant
                i <= long_break_interval,
                2 * long_break_interval <= usize::MAX,
                n == cycle_len(long_break_interval as nat),
                plan == cycle_plan(
                    long_break_interval as nat,
                    work_time as nat,
                    short_break_time as nat,
                    long_break_time as nat,
                ),
                timers@.len() == if i == long_break_interval && i > 0 {
                    2 * i - 1
                } else {
                    2 * i
                },
                forall|j: int| 0 <= j < timers@.len() ==> (#[trigger] timers@[j])@ == plan[j],
                forall|j: int| 0 <= j < timers@.len() ==> (#[trigger] timers@[j]).wf(),
            decreases long_break_interval - i,
        {
            let t = Timer::new(work_time, TimerType::Work);
            timers.push(t);
            if i < long_break_interval - 1 {
                let s = Timer::new(short_break_time, TimerType::Break);
                timers.push(s);
            }
            i = i + 1;
        }
        let l = Timer::new(long_break_time, TimerType::Break);
        timers.push(l);
        let p = Pomodoro {
            auto_start_work: asw,
            auto_start_break: asb,
            timers,
            cycle_count: 0,
            timer_pointer: 0,
        };
        proof {
            p.lemma_view_timers();
            assert(p@.timers =~= plan);
        }
        p
    }

    /// Tests `can_forward`: whether the cycle can move forward now.
    pub fn can_forward(&self) -> (b: bool)
        requires
            self.wf(),
        ensures
            b == self@.can_forward(),
    {
        proof {
            self.lemma_view_timers();
        }
        assert(self.timer_pointer < self.timers.len());
        self.timer_pointer + 1 < self.timers.len() || self.cycle_count < u32::MAX
    }

    /// Tests `can_tick`: whether a tick keeps the cycle count within `u32`.
    pub fn can_tick(&self) -> (b: bool)
        requires
            self.wf(),
        ensures
            b == self@.can_tick(),
    {
        proof {
            self.lemma_view_timers();
        }
        let ptr = self.timer_pointer;
        let (_, status, _) = self.timers[ptr].get_current_status();
        self.can_forward() || status == TimerState::Created || status == TimerState::Paused
    }

    /// Tests whether the cycle could move forward again after a move forward.
    pub fn can_forward_twice(&self) -> (b: bool)
        requires
            self.wf(),
        ensures
            forall|now: nat| b == #[trigger] self@.forwarded_at(now).can_forward(),
    {
        proof {
            self.lemma_view_timers();
            assert forall|now: nat| #[trigger] self@.forwarded_at(now).timer_pointer
                == (if self.timer_pointer + 1 < self.timers@.len() { self.timer_pointer + 1 } else { 0 })
                && self@.forwarded_at(now).cycle_count == (if self.timer_pointer + 1 < self.timers@.len() {
                    self.cycle_count as int
                } else {
                    self.cycle_count + 1
                }) by {
                crate::laws::lemma_forward_moves_to_fresh_next(self@, now);
            }
        }
        assert(self.timer_pointer < self.timers.len());
        if self.timer_pointer + 1 < self.timers.len() {
            self.timer_pointer + 2 < self.timers.len() || self.cycle_count < u32::MAX
        } else {
            1 < self.timers.len() || self.cycle_count < u32::MAX - 1
        }
    }

    /// Whether the timer that a move forward makes current starts by itself.
    pub fn next_starts_by_itself(&self) -> (b: bool)
        requires
            self.wf(),
        ensures
            forall|now: nat| b == #[trigger] self@.auto_starts(self@.forwarded_at(now).current().kind),
    {
        proof {
            self.lemma_view_timers();
            assert forall|now: nat| #[trigger] self@.forwarded_at(now).current().kind
                == self@.timers[if self.timer_pointer + 1 < self.timers@.len() { self.timer_pointer + 1 } else { 0 }].kind by {
                crate::laws::lemma_forward_moves_to_fresh_next(self@, now);
            }
        }
        assert(self.timer_pointer < self.timers.len());
        let next = if self.timer_pointer + 1 < self.timers.len() {
            self.timer_pointer + 1
        } else {
            0
        };
        let (_, _, kind) = self.timers[next].get_current_status();
        (self.auto_start_work && kind == TimerType::Work) || (self.auto_start_break && kind == TimerType::Break)
    }

    /// Whether the current timer is the last of the cycle (the long break).
    pub fn current_is_last(&self) -> (b: bool)
        requires
            self.wf(),
        ensures
            b == (self@.timer_pointer + 1 == self@.timers.len()),
    {
        proof {
            self.lemma_view_timers();
        }
        assert(self.timer_pointer < self.timers.len());
        self.timer_pointer + 1 == self.timers.len()
    }

    /// Resets the timer under the pointer, if there is one.
    fn reset_at_pointer(&mut self)
        requires
            forall|i: int| 0 <= i < old(self)@.timers.len() ==> (#[trigger] old(self)@.timers[i]).wf(),
        ensures
            forall|i: int| 0 <= i < final(self)@.timers.len() ==> (#[trigger] final(self)@.timers[i]).wf(),
            final(self).timer_pointer == old(self).timer_pointer,
            final(self).cycle_count == old(self).cycle_count,
            final(self).auto_start_work == old(self).auto_start_work,
            final(self).auto_start_break == old(self).auto_start_break,
            final(self).timers@.len() == old(self).timers@.len(),
            final(self).epochs() == old(self).epochs(),
            old(self).timer_pointer < old(self).timers@.len() ==> final(self)@ == old(self)@.current_reset(),
            old(self).timer_pointer >= old(self).timers@.len() ==> final(self)@ == old(self)@,
    {
        proof {
            old(self).lemma_view_timers();
        }
        let ptr = self.timer_pointer;
        if ptr < self.timers.len() {
            let (_, status, _) = self.timers[ptr].get_current_status();
            if status != TimerState::Created {
                self.timers[ptr].reset();
            }
            proof {
                self.lemma_view_timers();
                assert(self@.timers =~= old(self)@.current_reset().timers);
                assert(self.epochs() =~= old(self).epochs());
            }
        }
    }

    /// Resets the current timer: a started timer goes back to its whole
    /// length, not running. Nothing else changes.
    pub fn reset_current(&mut self)
        requires
            old(self).wf(),
        ensures
            final(self).wf(),
            final(self)@ == old(self)@.current_reset(),
            final(self).epochs() == old(self).epochs(),
    {
        proof {
            old(self).lemma_view_timers();
        }
        self.reset_at_pointer();
        proof {
            self.lemma_view_timers();
        }
    }

    /// Starts (or resumes) the current timer from the clock's reading now when
    /// it is created or paused. Nothing else changes.
    pub fn start(&mut self)
        requires
            old(self).wf(),
        ensures
            final(self).wf(),
            exists|now: nat| now >= old(self)@.current().latest && final(self)@ == #[trigger] old(self)@.started_at(now),
            final(self).epochs() == old(self).epochs(),
    {
        proof {
            old(self).lemma_view_timers();
        }
        let ptr = self.timer_pointer;
        let (_, status, _) = self.timers[ptr].get_current_status();
        if status == TimerState::Created || status == TimerState::Paused {
            self.timers[ptr].start();
            proof {
                self.lemma_view_timers();
                let now = choose|now: nat| self.timers@[ptr as int]@ == #[trigger] old(self)@.current().started_at(now);
                assert(self@.timers =~= old(self)@.started_at(now).timers);
                assert(self.epochs() =~= old(self).epochs());
            }
        } else {
            proof {
                assert(self@ == old(self)@.started_at(old(self)@.current().latest));
            }
        }
    }

    /// Pauses the current timer when it is running (after its clock check,
    /// which may finish it instead). Nothing else changes.
    pub fn pause(&mut self)
        requires
            old(self).wf(),
        ensures
            final(self).wf(),
            exists|check: nat, now: nat|
                check >= old(self)@.current().latest && now >= check && final(self)@ == #[trigger] old(self)@.paused_at(
                    check,
                    now,
                ),
            final(self).epochs() == old(self).epochs(),
    {
        proof {
            old(self).lemma_view_timers();
        }
        let ptr = self.timer_pointer;
        let (_, status, _) = self.timers[ptr].get_current_status();
        if status == TimerState::Running {
            self.timers[ptr].pause();
            proof {
                self.lemma_view_timers();
                let (c, n) = choose|c: nat, n: nat|
                    c >= old(self)@.current().latest && n >= c && self.timers@[ptr as int]@ == #[trigger] old(self)@.current().paused_at(c, n);
                assert(self@.timers =~= old(self)@.paused_at(c, n).timers);
                assert(self.epochs() =~= old(self).epochs());
            }
        } else {
            proof {
                let l = old(self)@.current().latest;
                assert(old(self)@.current().paused_at(l, l) == old(self)@.current());
                assert(old(self)@.timers =~= old(self)@.paused_at(l, l).timers);
            }
        }
    }

    /// Moves to the next timer: the current one is reset, the next becomes
    /// current (after the last comes the first again, and a completed cycle is
    /// counted), and it starts from the clock's reading now where its kind is
    /// set to.
    pub fn forward(&mut self)
        requires
            old(self).wf(),
            old(self)@.can_forward(),
        ensures
            final(self).wf(),
            exists|now: nat| now >= old(self)@.next_latest() && final(self)@ == #[trigger] old(self)@.forwarded_at(now),
            final(self).epochs() == old(self).epochs(),
    {
        proof {
            old(self).lemma_view_timers();
        }
        self.reset_current();
        let ghost v1 = self@;
        let len = self.timers.len();
        self.timer_pointer = (self.timer_pointer + 1) % len;
        proof {
            let next = old(self)@.timer_pointer + 1;
            if next < len {
                vstd::arithmetic::div_mod::lemma_small_mod(next, len as nat);
            } else {
                vstd::arithmetic::div_mod::lemma_mod_self_0(len as int);
            }
        }
        if self.timer_pointer == 0 {
            proof {
                self.lemma_view_timers();
                assert forall|i: int| 0 <= i < v1.timers.len() implies (#[trigger] v1.timers[i]).is_fresh() by {
                    if i == old(self)@.timer_pointer {
                        assert(v1.timers[i] == old(self)@.current().reset());
                    }
                }
            }
            let mut k: usize = 0;
            while k < len
                invariant
                    len == self.timers@.len(),
                    self.timer_pointer == k,
                    k <= len,
                    forall|i: int| 0 <= i < self@.timers.len() ==> (#[trigger] self@.timers[i]).wf(),
                    self@.timers == v1.timers,
                    self.epochs() == old(self).epochs(),
                    self.cycle_count == v1.cycle_count,
                    self.auto_start_work == v1.auto_start_work,
                    self.auto_start_break == v1.auto_start_break,
                    v1.wf(),
                    forall|i: int| 0 <= i < v1.timers.len() ==> (#[trigger] v1.timers[i]).is_fresh(),
                decreases len - k,
            {
                proof {
                    self.lemma_view_timers();
                }
                self.reset_at_pointer();
                proof {
                    self.lemma_view_timers();
                    assert(self@.timers =~= v1.timers);
                }
                self.timer_pointer = self.timer_pointer + 1;
                k = k + 1;
            }
            self.timer_pointer = 0;
            self.cycle_count = self.cycle_count + 1;
        }
        let ghost v2 = self@;
        proof {
            self.lemma_view_timers();
        }
        let ptr = self.timer_pointer;
        let (_, _, timer_type) = self.timers[ptr].get_current_status();
        if (self.auto_start_work && timer_type == TimerType::Work) || (self.auto_start_break
            && timer_type == TimerType::Break) {
            self.timers[ptr].start();
            proof {
                self.lemma_view_timers();
                let now = choose|now: nat| self.timers@[ptr as int]@ == #[trigger] v2.current().started_at(now);
                assert(self@.timers =~= v2.with_current(v2.current().started_at(now)).timers);
                assert(self@ == old(self)@.forwarded_at(now));
                assert(self.epochs() =~= old(self).epochs());
            }
        } else {
            proof {
                assert(self@ == old(self)@.forwarded_at(old(self)@.next_latest()));
            }
        }
    }

    /// Checks the current timer against the clock and, when it has finished,
    /// moves to the next one; then reports on the current timer. The report is
    /// always there.
    pub fn update_and_return_state(&mut self) -> (report: Option<TickReport>)
        requires
            old(self).wf(),
            old(self)@.can_tick(),
        ensures
            final(self).wf(),
            exists|check: nat, now: nat|
                check >= old(self)@.current().latest && now >= old(self)@.with_current(
                    old(self)@.current().expired_at(check),
                ).next_latest() && final(self)@ == #[trigger] old(self)@.ticked_at(check, now),
            exists|now: nat| now >= final(self)@.current().latest && report == Some(#[trigger] final(self)@.report_at(now)),
            final(self).epochs() == old(self).epochs(),
    {
        proof {
            old(self).lemma_view_timers();
        }
        let ptr = self.timer_pointer;
        self.timers[ptr].time_update();
        let ghost c: nat = choose|c: nat|
            c >= old(self)@.current().latest && self.timers@[ptr as int]@ == #[trigger] old(self)@.current().expired_at(c);
        proof {
            self.lemma_view_timers();
            assert(self@.timers =~= old(self)@.with_current(old(self)@.current().expired_at(c)).timers);
            assert(self.epochs() =~= old(self).epochs());
        }
        let (remaining, status, timer_type) = self.timers[ptr].get_current_status();
        let session_count = self.timer_pointer / 2;
        let cycle_count = self.cycle_count;
        proof {
            let r = choose|r: nat|
                r >= self.timers@[ptr as int]@.latest && (remaining, status, timer_type) == #[trigger] self.timers@[ptr as int]@.status_at(r);
            assert(self@.current() == self.timers@[ptr as int]@);
            assert(self@.report_at(r).0 == remaining);
            if status != TimerState::Finished {
                let n = old(self)@.with_current(old(self)@.current().expired_at(c)).next_latest();
                assert(self@ == old(self)@.ticked_at(c, n));
            }
        }
        if status != TimerState::Finished {
            let started = if status == TimerState::Created {
                false
            } else {
                true
            };
            return Some((remaining, status, timer_type, started, session_count, cycle_count));
        }
        let ghost v_mid = self@;
        proof {
            assert(v_mid == old(self)@.with_current(old(self)@.current().expired_at(c)));
        }
        self.forward();
        proof {
            self.lemma_view_timers();
            let n = choose|n: nat| n >= v_mid.next_latest() && self@ == #[trigger] v_mid.forwarded_at(n);
            assert(self@ == old(self)@.ticked_at(c, n));
        }
        let ptr = self.timer_pointer;
        let (remaining, status, timer_type) = self.timers[ptr].get_current_status();
        let session_count = self.timer_pointer / 2;
        let cycle_count = self.cycle_count;
        let started = if status == TimerState::Created {
            false
        } else {
            true
        };
        proof {
            let r = choose|r: nat|
                r >= self.timers@[ptr as int]@.latest && (remaining, status, timer_type) == #[trigger] self.timers@[ptr as int]@.status_at(r);
            assert(self@.current() == self.timers@[ptr as int]@);
            assert(self@.report_at(r).0 == remaining);
        }
        Some((remaining, status, timer_type, started, session_count, cycle_count))
    }
}

} // verus!
