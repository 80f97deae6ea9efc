//! Properties of timers and cycles that hold across operations.
use vstd::prelude::*;
use crate::timer::{saturating_diff, TimerState, TimerType, TimerView, NANOS_PER_SEC};
use crate::pomodoro::{cycle_len, cycle_plan, PomodoroView};

verus! {

/// Every timer operation keeps the timer's invariant, its length and its kind,
/// and none of them but reset gives back time: the time left never grows.
/// The clock check, pausing, finishing and resetting keep the reading of the
/// last start; only pausing a running timer changes the reading of the last
/// pause.
pub proof fn lemma_timer_ops_never_add_time(t: TimerView, check: nat, now: nat)
    requires
        t.wf(),
    ensures
        t.expired_at(now).wf() && t.expired_at(now).time_left <= t.time_left,
        t.paused_at(check, now).wf() && t.paused_at(check, now).time_left <= t.time_left,
        t.started_at(now).wf() && t.started_at(now).time_left <= t.time_left,
        t.finished().wf() && t.finished().time_left <= t.time_left,
        t.reset().wf(),
        t.expired_at(now).duration == t.duration && t.expired_at(now).kind == t.kind,
        t.paused_at(check, now).duration == t.duration && t.paused_at(check, now).kind == t.kind,
        t.started_at(now).duration == t.duration && t.started_at(now).kind == t.kind,
        t.finished().duration == t.duration && t.finished().kind == t.kind,
        t.reset().duration == t.duration && t.reset().kind == t.kind,
        t.expired_at(now).start == t.start && t.expired_at(now).pause == t.pause,
        t.paused_at(check, now).start == t.start,
        t.finished().start == t.start && t.finished().pause == t.pause,
        t.reset().start == t.start && t.reset().pause == t.pause,
        t.started_at(now).pause == t.pause,
{
}

/// Resetting gives an untouched timer of the same length and kind, and a
/// second reset changes nothing.
pub proof fn lemma_reset_restores_and_is_idempotent(t: TimerView)
    requires
        t.wf(),
    ensures
        t.reset().is_fresh(),
        t.reset().reset() == t.reset(),
{
}

/// Finishing twice is finishing once, and a finished timer has nothing left.
pub proof fn lemma_finish_is_idempotent(t: TimerView)
    requires
        t.wf(),
    ensures
        t.finished().finished() == t.finished(),
        t.finished().state == TimerState::Finished ==> t.finished().time_left == 0,
{
}

/// Starting a created or paused timer makes it run from the reading of the
/// call; starting a running timer whose time is not used up changes nothing,
/// so starting twice is starting once.
pub proof fn lemma_start_restarts_the_clock_once(t: TimerView, a: nat, b: nat)
    requires
        t.wf(),
    ensures
        (t.state == TimerState::Created || t.state == TimerState::Paused) ==> t.started_at(a).state
            == TimerState::Running && t.started_at(a).start == a && t.started_at(a).time_left == t.time_left,
        (t.state == TimerState::Running && t.elapsed_at(a) < t.time_left) ==> t.started_at(a) == t.seen(a),
        (t.state == TimerState::Created || t.state == TimerState::Paused) && b >= a && b - a
            < t.time_left ==> t.started_at(a).started_at(b) == t.started_at(a).seen(b),
{
}

/// The time a timer spends paused is not charged: after a pause at reading
/// `now` and a start at a later reading `resume`, the seconds shown `x`
/// nanoseconds after the resume are those left at the pause less `x`,
/// however long the pause lasted.
pub proof fn lemma_pause_is_not_charged(t: TimerView, check: nat, now: nat, resume: nat, x: nat)
    requires
        t.wf(),
        t.state == TimerState::Running,
        t.elapsed_at(check) < t.time_left,
    ensures
        ({
            let p = t.paused_at(check, now);
            let r = p.started_at(resume);
            &&& p.state == TimerState::Paused
            &&& p.time_left == saturating_diff(t.time_left, t.elapsed_at(now))
            &&& p.pause == now
            &&& r.state == TimerState::Running
            &&& r.start == resume
            &&& r.time_left == p.time_left
            &&& r.remaining_secs_at(resume + x) == saturating_diff(p.time_left, x) / (NANOS_PER_SEC as nat)
        }),
{
}

/// A clock check made at a reading no earlier than the timer's latest one
/// finishes a running timer whose time was used up as of any reading up to
/// the check: readings only move forward, so time once used up stays used up.
pub proof fn lemma_check_finishes_what_is_due(t: TimerView, r: nat, check: nat)
    requires
        t.wf(),
        t.state == TimerState::Running,
        r <= check,
        t.elapsed_at(r) >= t.time_left,
    ensures
        t.expired_at(check).state == TimerState::Finished,
        t.expired_at(check).time_left == 0,
        t.expired_at(check).start == t.start,
        t.expired_at(check).latest >= check,
{
}

/// Pausing a running timer, checked at a reading no earlier than its latest
/// one and paused at a reading no earlier than the check, takes off at least
/// the time that had run by the latest reading: exactly the time from the
/// last start to the pause, down to zero. The pause reading is then the
/// timer's latest.
pub proof fn lemma_pause_takes_off_the_time_run(t: TimerView, check: nat, now: nat)
    requires
        t.wf(),
        t.state == TimerState::Running,
        check >= t.latest,
        now >= check,
        t.elapsed_at(check) < t.time_left,
    ensures
        ({
            let p = t.paused_at(check, now);
            &&& p.state == TimerState::Paused
            &&& p.pause == now
            &&& now >= t.start
            &&& p.time_left + (now - t.start) >= t.time_left
            &&& p.time_left == saturating_diff(t.time_left, (now - t.start) as nat)
            &&& p.time_left <= saturating_diff(t.time_left, (t.latest - t.start) as nat)
            &&& p.latest == now
        }),
{
}

/// Resuming a paused timer at a reading no earlier than its latest one starts
/// it from that reading, which is no earlier than the pause: right after the
/// resume it shows exactly the time it had left at the pause, however long the
/// pause lasted, and from then on only the time since the resume counts.
pub proof fn lemma_resume_charges_nothing_for_the_pause(t: TimerView, resume: nat, x: nat)
    requires
        t.wf(),
        t.state == TimerState::Paused,
        resume >= t.latest,
    ensures
        ({
            let r = t.started_at(resume);
            &&& r.state == TimerState::Running
            &&& r.start == resume
            &&& r.start >= t.pause
            &&& r.time_left == t.time_left
            &&& r.remaining_secs_at(resume) == t.time_left / (NANOS_PER_SEC as nat)
            &&& r.remaining_secs_at(resume + x) == saturating_diff(t.time_left, x) / (NANOS_PER_SEC as nat)
        }),
{
}

/// A status read at a reading no earlier than the timer's latest one never
/// shows more than the timer had left at that latest reading; while running,
/// everything since the last start up to the reading is counted.
pub proof fn lemma_status_counts_from_the_last_start(t: TimerView, now: nat)
    requires
        t.wf(),
        now >= t.latest,
    ensures
        t.remaining_secs_at(now) <= t.remaining_secs_at(t.latest),
        t.state == TimerState::Running ==> now >= t.start && t.remaining_secs_at(now) == saturating_diff(
            t.time_left,
            (now - t.start) as nat,
        ) / (NANOS_PER_SEC as nat),
{
    lemma_countdown_never_goes_up(t, t.latest, now);
}

/// A move forward onto a timer that starts by itself starts it at a reading
/// no earlier than any that timer took before: it runs from that reading with
/// its whole length left, and read at that moment shows its whole length.
pub proof fn lemma_auto_start_runs_from_the_move(v: PomodoroView, now: nat)
    requires
        v.wf(),
        now >= v.next_latest(),
        v.auto_starts(v.timers[v.next_pointer() as int].kind),
    ensures
        ({
            let w = v.forwarded_at(now);
            &&& w.timer_pointer == v.next_pointer()
            &&& w.current().state == TimerState::Running
            &&& w.current().start == now
            &&& w.current().start >= v.next_latest()
            &&& w.current().time_left == w.current().total_nanos()
            &&& w.current().remaining_secs_at(now) == w.current().duration
        }),
{
    lemma_forward_moves_to_fresh_next(v, now);
    let d = v.forwarded_at(now).current().duration;
    vstd::arithmetic::div_mod::lemma_div_by_multiple(d as int, NANOS_PER_SEC as int);
    let n = v.timers.len();
    lemma_step_div_mod(v.timer_pointer, n);
    vstd::arithmetic::div_mod::lemma_small_mod(v.timer_pointer, n);
}

/// A tick whose clock check is no earlier than the current timer's latest
/// reading, on a running timer whose time was used up as of any reading up to
/// the check, finishes that timer and moves the cycle forward.
pub proof fn lemma_tick_moves_on_when_due(v: PomodoroView, r: nat, check: nat, now: nat)
    requires
        v.wf(),
        v.current().state == TimerState::Running,
        r <= check,
        v.current().elapsed_at(r) >= v.current().time_left,
    ensures
        v.with_current(v.current().expired_at(check)).current().state == TimerState::Finished,
        v.ticked_at(check, now) == v.with_current(v.current().expired_at(check)).forwarded_at(now),
        v.ticked_at(check, now).timer_pointer == v.next_pointer(),
{
    lemma_check_finishes_what_is_due(v.current(), r, check);
    let v1 = v.with_current(v.current().expired_at(check));
    assert(v1.wf());
    lemma_forward_moves_to_fresh_next(v1, now);
    let n = v.timers.len();
    lemma_step_div_mod(v.timer_pointer, n);
    vstd::arithmetic::div_mod::lemma_small_mod(v.timer_pointer, n);
}

/// The seconds a timer reports never exceed its length.
pub proof fn lemma_remaining_within_length(t: TimerView, now: nat)
    requires
        t.wf(),
    ensures
        t.remaining_secs_at(now) <= t.duration,
{
    let n = 1_000_000_000nat;
    let a = if t.state == TimerState::Running {
        saturating_diff(t.time_left, t.elapsed_at(now))
    } else {
        t.time_left
    };
    assert(a / n <= t.duration) by (nonlinear_arith)
        requires
            a <= t.duration * n,
            n == 1_000_000_000nat,
    ;
}

/// The countdown never goes up: the later a timer's status is read, the
/// fewer (or as many) seconds it shows.
pub proof fn lemma_countdown_never_goes_up(t: TimerView, r1: nat, r2: nat)
    requires
        r1 <= r2,
    ensures
        t.remaining_secs_at(r2) <= t.remaining_secs_at(r1),
{
    if t.state == TimerState::Running {
        vstd::arithmetic::div_mod::lemma_div_is_ordered(
            saturating_diff(t.time_left, t.elapsed_at(r2)) as int,
            saturating_diff(t.time_left, t.elapsed_at(r1)) as int,
            1_000_000_000int,
        );
    }
}

/// `(x + 1) % n` and `(x + 1) / n` follow from `x % n` and `x / n`.
proof fn lemma_step_div_mod(x: nat, n: nat)
    requires
        n > 0,
    ensures
        x % n + 1 < n ==> (x + 1) % n == x % n + 1 && (x + 1) / n == x / n,
        x % n + 1 == n ==> (x + 1) % n == 0 && (x + 1) / n == x / n + 1,
{
    vstd::arithmetic::div_mod::lemma_fundamental_div_mod(x as int, n as int);
    vstd::arithmetic::div_mod::lemma_mod_bound(x as int, n as int);
    let q = (x / n) as int;
    assert(x as int == (n as int) * q + x % n);
    assert(q * (n as int) == (n as int) * q) by (nonlinear_arith);
    if x % n + 1 < n {
        vstd::arithmetic::div_mod::lemma_fundamental_div_mod_converse(
            (x + 1) as int,
            n as int,
            (x / n) as int,
            (x % n + 1) as int,
        );
    } else {
        assert((q + 1) * (n as int) == q * (n as int) + n) by (nonlinear_arith);
        vstd::arithmetic::div_mod::lemma_fundamental_div_mod_converse(
            (x + 1) as int,
            n as int,
            (x / n + 1) as int,
            0,
        );
    }
}

/// Moving forward keeps the cycle's invariant, its plan and its settings; the
/// new current timer is the next one (the first after the last, when a
/// completed cycle is counted), and it has its whole length left: it runs from
/// the reading of the move exactly when its kind is set to start by itself,
/// and is untouched otherwise.
pub proof fn lemma_forward_moves_to_fresh_next(v: PomodoroView, now: nat)
    requires
        v.wf(),
    ensures
        v.forwarded_at(now).wf(),
        v.forwarded_at(now).same_plan(v),
        v.forwarded_at(now).auto_start_work == v.auto_start_work,
        v.forwarded_at(now).auto_start_break == v.auto_start_break,
        v.timer_pointer + 1 < v.timers.len() ==> v.forwarded_at(now).timer_pointer == v.timer_pointer + 1
            && v.forwarded_at(now).cycle_count == v.cycle_count,
        v.timer_pointer + 1 == v.timers.len() ==> v.forwarded_at(now).timer_pointer == 0
            && v.forwarded_at(now).cycle_count == v.cycle_count + 1,
        v.forwarded_at(now).current().time_left == v.forwarded_at(now).current().total_nanos(),
        v.forwarded_at(now).current().state == (if v.auto_starts(v.forwarded_at(now).current().kind) {
            TimerState::Running
        } else {
            TimerState::Created
        }),
        v.auto_starts(v.forwarded_at(now).current().kind) ==> v.forwarded_at(now).current().start == now,
        v.forwarded_at(now).timer_pointer == v.next_pointer(),
        v.forwarded_at(now).current().kind == v.timers[v.next_pointer() as int].kind,
{
    let n = v.timers.len();
    lemma_step_div_mod(v.timer_pointer, n);
    vstd::arithmetic::div_mod::lemma_small_mod(v.timer_pointer, n);
    let v1 = v.current_reset();
    assert forall|i: int| 0 <= i < n implies (#[trigger] v1.timers[i]).is_fresh() && v1.timers[i].wf()
        && v1.timers[i].duration == v.timers[i].duration && v1.timers[i].kind == v.timers[i].kind by {
        if i == v.timer_pointer {
            assert(v1.timers[i] == v.current().reset());
        }
    }
    let w = v.forwarded_at(now);
    assert forall|i: int| 0 <= i < n implies (#[trigger] w.timers[i]).wf()
        && w.timers[i].duration == v.timers[i].duration && w.timers[i].kind == v.timers[i].kind by {
        assert(v1.timers[i].is_fresh());
    }
}

/// The cycle after one move forward for each reading in `readings`.
pub open spec fn forwarded_times(v: PomodoroView, readings: Seq<nat>) -> PomodoroView
    decreases readings.len(),
{
    if readings.len() == 0 {
        v
    } else {
        forwarded_times(v, readings.drop_last()).forwarded_at(readings.last())
    }
}

/// After `k` moves forward the current timer is `k` places further round the
/// cycle, and one completed cycle is counted for each time the sequence
/// wrapped, whatever the readings of the moves.
pub proof fn lemma_forwarded_times(v: PomodoroView, readings: Seq<nat>)
    requires
        v.wf(),
    ensures
        forwarded_times(v, readings).wf(),
        forwarded_times(v, readings).same_plan(v),
        forwarded_times(v, readings).timer_pointer == (v.timer_pointer + readings.len()) % v.timers.len(),
        forwarded_times(v, readings).cycle_count == v.cycle_count + (v.timer_pointer + readings.len())
            / v.timers.len(),
        forwarded_times(v, readings).auto_start_work == v.auto_start_work,
        forwarded_times(v, readings).auto_start_break == v.auto_start_break,
        readings.len() > 0 && !v.auto_start_work && !v.auto_start_break ==> forall|i: int|
            0 <= i < v.timers.len() ==> (#[trigger] forwarded_times(v, readings).timers[i]).is_fresh(),
    decreases readings.len(),
{
    let n = v.timers.len();
    let k = readings.len();
    if k == 0 {
        vstd::arithmetic::div_mod::lemma_small_mod(v.timer_pointer, n);
        vstd::arithmetic::div_mod::lemma_basic_div(v.timer_pointer as int, n as int);
    } else {
        lemma_forwarded_times(v, readings.drop_last());
        let u = forwarded_times(v, readings.drop_last());
        lemma_forward_moves_to_fresh_next(u, readings.last());
        let w = forwarded_times(v, readings);
        if !v.auto_start_work && !v.auto_start_break {
            assert forall|i: int| 0 <= i < v.timers.len() implies (#[trigger] w.timers[i]).is_fresh() by {
                if i != w.timer_pointer {
                    assert(w.wf());
                }
            }
        }
        lemma_step_div_mod((v.timer_pointer + k - 1) as nat, n);
        vstd::arithmetic::div_mod::lemma_mod_bound((v.timer_pointer + k - 1) as int, n as int);
    }
}

/// One more move forward at reading `now` after the moves of `readings` is
/// the moves of `readings` followed by `now`: the effect of each further call
/// of `forward` extends the chain.
pub proof fn lemma_forwarded_times_push(v: PomodoroView, readings: Seq<nat>, now: nat)
    ensures
        forwarded_times(v, readings.push(now)) == forwarded_times(v, readings).forwarded_at(now),
{
    assert(readings.push(now).drop_last() =~= readings);
}

/// A whole round of moves forward (one per timer) comes back to the same
/// phase and counts exactly one completed cycle; where no kind starts by
/// itself, every timer is then untouched, with its whole length left.
pub proof fn lemma_full_round(v: PomodoroView, readings: Seq<nat>)
    requires
        v.wf(),
        readings.len() == v.timers.len(),
    ensures
        forwarded_times(v, readings).timer_pointer == v.timer_pointer,
        forwarded_times(v, readings).cycle_count == v.cycle_count + 1,
        forwarded_times(v, readings).same_plan(v),
        !v.auto_start_work && !v.auto_start_break ==> forall|i: int|
            0 <= i < v.timers.len() ==> (#[trigger] forwarded_times(v, readings).timers[i]).is_fresh(),
{
    let n = v.timers.len();
    lemma_forwarded_times(v, readings);
    vstd::arithmetic::div_mod::lemma_fundamental_div_mod_converse(
        (v.timer_pointer + n) as int,
        n as int,
        1,
        v.timer_pointer as int,
    );
}

/// A chain of cycles in which each comes from the one before by a move
/// forward (as each call of `forward` states, with the reading it took) is
/// the chain of moves of those readings.
pub proof fn lemma_forward_chain(states: Seq<PomodoroView>, readings: Seq<nat>, i: int)
    requires
        states.len() == readings.len() + 1,
        forall|j: int| 0 <= j < readings.len() ==> #[trigger] states[j + 1] == states[j].forwarded_at(readings[j]),
        0 <= i <= readings.len(),
    ensures
        states[i] == forwarded_times(states[0], readings.take(i)),
    decreases i,
{
    if i > 0 {
        lemma_forward_chain(states, readings, i - 1);
        assert(states[i] == states[(i - 1) + 1]);
        lemma_forwarded_times_push(states[0], readings.take(i - 1), readings[i - 1]);
        assert(readings.take(i - 1).push(readings[i - 1]) =~= readings.take(i));
    } else {
        assert(readings.take(0) =~= Seq::<nat>::empty());
    }
}

/// As many calls of `forward` in a row as the cycle has timers come back to
/// the same phase and count exactly one completed cycle; where no kind starts
/// by itself, every timer is then untouched, with its whole length left.
pub proof fn lemma_forward_calls_full_round(states: Seq<PomodoroView>, readings: Seq<nat>)
    requires
        states.len() == readings.len() + 1,
        states[0].wf(),
        readings.len() == states[0].timers.len(),
        forall|j: int| 0 <= j < readings.len() ==> #[trigger] states[j + 1] == states[j].forwarded_at(readings[j]),
    ensures
        states.last().timer_pointer == states[0].timer_pointer,
        states.last().cycle_count == states[0].cycle_count + 1,
        states.last().same_plan(states[0]),
        !states[0].auto_start_work && !states[0].auto_start_break ==> forall|i: int|
            0 <= i < states[0].timers.len() ==> (#[trigger] states.last().timers[i]).is_fresh(),
{
    let n = readings.len() as int;
    lemma_forward_chain(states, readings, n);
    assert(readings.take(n) =~= readings);
    lemma_full_round(states[0], readings);
}

/// Starting, resetting the current timer, pausing and ticking keep the
/// cycle's invariant and its plan, and leave the current position and the
/// settings alone (a tick that moves forward aside).
pub proof fn lemma_ops_keep_cycle(v: PomodoroView, check: nat, now: nat)
    requires
        v.wf(),
    ensures
        v.started_at(now).wf() && v.started_at(now).same_plan(v) && v.started_at(now).timer_pointer
            == v.timer_pointer,
        v.current_reset().wf() && v.current_reset().same_plan(v)
            && v.current_reset().timer_pointer == v.timer_pointer,
        v.paused_at(check, now).wf() && v.paused_at(check, now).same_plan(v)
            && v.paused_at(check, now).timer_pointer == v.timer_pointer,
        v.ticked_at(check, now).wf() && v.ticked_at(check, now).same_plan(v),
        v.ticked_at(check, now).auto_start_work == v.auto_start_work,
        v.ticked_at(check, now).auto_start_break == v.auto_start_break,
{
    let c = v.current();
    lemma_timer_ops_never_add_time(c, check, now);
    lemma_reset_restores_and_is_idempotent(c);
    let v1 = v.with_current(c.expired_at(check));
    assert(v1.wf());
    if v1.current().state == TimerState::Finished {
        lemma_forward_moves_to_fresh_next(v1, now);
    }
    assert forall|i: int| 0 <= i < v.timers.len() implies (#[trigger] v.ticked_at(check, now).timers[i]).duration
        == v.timers[i].duration && v.ticked_at(check, now).timers[i].kind == v.timers[i].kind by {
        assert(v1.timers[i].duration == v.timers[i].duration);
    }
}

/// A tick whose current timer is not due (still running with time to go, or
/// created, or paused) leaves the cycle as it was, but for the reading a
/// running current timer records.
pub proof fn lemma_tick_not_due_changes_nothing(v: PomodoroView, check: nat, now: nat)
    requires
        v.wf(),
        v.current().state != TimerState::Finished,
        !(v.current().state == TimerState::Running && v.current().elapsed_at(check) >= v.current().time_left),
    ensures
        ({
            let w = v.ticked_at(check, now);
            &&& w.timer_pointer == v.timer_pointer
            &&& w.cycle_count == v.cycle_count
            &&& w.timers.len() == v.timers.len()
            &&& w.current().state == v.current().state
            &&& w.current().time_left == v.current().time_left
            &&& w.current().start == v.current().start
            &&& w.current().pause == v.current().pause
            &&& forall|i: int| 0 <= i < v.timers.len() && i != v.timer_pointer ==> #[trigger] w.timers[i] == v.timers[i]
        }),
        v.current().state != TimerState::Running ==> v.ticked_at(check, now) == v,
        v.current().state == TimerState::Running ==> v.ticked_at(check, now) == v.with_current(
            v.current().seen(check),
        ),
{
    assert(v.with_current(v.current()).timers =~= v.timers);
}

/// What a tick reports: the seconds left never exceed the current phase's
/// length, "started" means the current timer is no longer untouched, and the
/// session number is the current work phase.
pub proof fn lemma_report_consistent(v: PomodoroView, now: nat)
    requires
        v.wf(),
        v.timer_pointer <= usize::MAX,
        v.cycle_count <= u32::MAX,
    ensures
        v.report_at(now).0 <= v.current().duration,
        v.report_at(now).1 == v.current().state,
        v.report_at(now).2 == v.current().kind,
        v.report_at(now).3 == (v.current().state != TimerState::Created),
        v.report_at(now).4 == v.timer_pointer / 2,
        v.report_at(now).5 == v.cycle_count,
{
    lemma_remaining_within_length(v.current(), now);
}

/// In a cycle with at least one work session, work and breaks alternate,
/// beginning with work, and the cycle ends with the long break.
pub proof fn lemma_plan_alternates(
    long_break_interval: nat,
    work_time: nat,
    short_break_time: nat,
    long_break_time: nat,
)
    requires
        long_break_interval >= 1,
    ensures
        ({
            let plan = cycle_plan(long_break_interval, work_time, short_break_time, long_break_time);
            &&& plan.len() == 2 * long_break_interval
            &&& forall|i: int| 0 <= i < plan.len() ==> ((#[trigger] plan[i]).kind == TimerType::Work <==> i % 2 == 0)
            &&& forall|i: int| 0 <= i < plan.len() && i % 2 == 0 ==> (#[trigger] plan[i]).duration == work_time
            &&& forall|i: int| 0 <= i < plan.len() - 1 && i % 2 == 1 ==> (#[trigger] plan[i]).duration == short_break_time
            &&& plan[plan.len() - 1].duration == long_break_time
            &&& forall|i: int| 0 <= i < plan.len() ==> (#[trigger] plan[i]).is_fresh()
        }),
{
}

/// On a cycle built with `long_break_interval` work sessions, the session
/// number reported (the current position halved) is always one of them.
pub proof fn lemma_session_within_interval(v: PomodoroView, long_break_interval: nat)
    requires
        v.wf(),
        long_break_interval >= 1,
        v.timers.len() == cycle_len(long_break_interval),
    ensures
        v.timer_pointer / 2 < long_break_interval,
{
}

} // verus!
