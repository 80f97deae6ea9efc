//! What the applet shows of a session's report: the clock face, the session
//! dots, the panel's progress and the main button.
use vstd::prelude::*;
use crate::session::Settings;
use crate::timer::{saturating_diff, TimerState, TimerType};

verus! {

/// Minutes and seconds of a count of seconds, as a clock face shows them.
pub fn timer_minutes_seconds(total_seconds: u64) -> (ms: (u64, u64))
    ensures
        ms.0 == total_seconds / 60,
        ms.1 == total_seconds % 60,
        ms.0 * 60 + ms.1 == total_seconds,
        ms.1 < 60,
{
    (total_seconds / 60, total_seconds % 60)
}

/// How many session dots the settings call for: the long break interval, or
/// one where that is zero (or does not fit in `usize`).
pub open spec fn dot_count(long_break_interval: u64) -> nat {
    if 0 < long_break_interval <= usize::MAX {
        long_break_interval as nat
    } else {
        1
    }
}

/// The session dots: one per work session of the cycle, filled up to and
/// including the current session.
pub fn session_dots(long_break_interval: u64, session_count: usize) -> (dots: Vec<bool>)
    ensures
        dots@.len() == dot_count(long_break_interval),
        forall|i: int|
            0 <= i < dots@.len() ==> #[trigger] dots@[i] == (i <= session_count),
{
    let total: usize = if long_break_interval > 0 && long_break_interval <= usize::MAX as u64 {
        long_break_interval as usize
    } else {
        1
    };
    let last: usize = total - 1;
    let active: usize = if session_count < last {
        session_count
    } else {
        last
    };
    let mut dots: Vec<bool> = Vec::new();
    let mut i: usize = 0;
    while i < total
        invariant
            i <= total,
            total == dot_count(long_break_interval),
            last == total - 1,
            active == if session_count < last { session_count } else { last },
            dots@.len() == i,
            forall|j: int| 0 <= j < i ==> #[trigger] dots@[j] == (j <= active),
        decreases total - i,
    {
        dots.push(i <= active);
        i = i + 1;
    }
    dots
}

/// `a * b`, or `u64::MAX` where that does not fit.
pub open spec fn saturating_product(a: u64, b: u64) -> nat {
    if a * b <= u64::MAX { (a * b) as nat } else { u64::MAX as nat }
}

/// Seconds in `minutes` minutes, saturating at `u64::MAX`.
fn minutes_to_seconds(minutes: u64) -> (s: u64)
    ensures
        s == saturating_product(minutes, 60),
{
    if minutes <= u64::MAX / 60 {
        minutes * 60
    } else {
        u64::MAX
    }
}

/// The configured length, in seconds, of a phase of kind `kind`: the work
/// time for work; for a break, the long break time when it is the last phase
/// of the cycle and the short break time otherwise (saturating at
/// `u64::MAX`).
pub open spec fn configured_length(kind: TimerType, settings: Settings, is_last: bool) -> nat {
    match kind {
        TimerType::Work => saturating_product(settings.work_time, 60),
        TimerType::Break => if is_last {
            saturating_product(settings.long_break_time, 60)
        } else {
            saturating_product(settings.short_break_time, 60)
        },
    }
}

/// Computes `configured_length`.
pub fn configured_phase_length(kind: TimerType, settings: &Settings, is_last: bool) -> (s: u64)
    ensures
        s == configured_length(kind, *settings, is_last),
{
    match kind {
        TimerType::Work => minutes_to_seconds(settings.work_time),
        TimerType::Break => if is_last {
            minutes_to_seconds(settings.long_break_time)
        } else {
            minutes_to_seconds(settings.short_break_time)
        },
    }
}

/// The panel's progress through a phase of `phase_length` seconds with
/// `remaining` seconds left: (seconds done, seconds in all); none for a phase
/// without length.
pub open spec fn progress_of(remaining: nat, phase_length: nat) -> Option<(nat, nat)> {
    if phase_length == 0 {
        None
    } else {
        Some((saturating_diff(phase_length, remaining), phase_length))
    }
}

/// The panel's progress through a phase of `phase_length` seconds with
/// `remaining` seconds left, as (seconds done, seconds in all); none for a
/// phase without length.
pub fn progress_parts(remaining: u64, phase_length: u64) -> (parts: Option<(u64, u64)>)
    ensures
        match progress_of(remaining as nat, phase_length as nat) {
            None => parts is None,
            Some(p) => parts == Some((p.0 as u64, p.1 as u64)),
        },
        parts matches Some(p) ==> p.0 <= p.1 && p.1 > 0,
{
    if phase_length == 0 {
        return None;
    }
    let done = phase_length.saturating_sub(remaining);
    Some((done, phase_length))
}

/// Within one phase the progress never goes back: the less time is left, the
/// more (or as much) is done, against the same length.
pub proof fn lemma_progress_never_goes_back(r1: nat, r2: nat, phase_length: nat)
    requires
        r2 <= r1,
        phase_length > 0,
    ensures
        progress_of(r1, phase_length).unwrap().0 <= progress_of(r2, phase_length).unwrap().0,
        progress_of(r1, phase_length).unwrap().1 == progress_of(r2, phase_length).unwrap().1,
{
}

/// The main button's action.
#[derive(Debug, Clone, Copy, PartialEq, Eq, Structural)]
pub enum PrimaryAction {
    Pause,
    Start,
}

/// A running timer can be paused; any other can be started.
pub fn primary_action(state: TimerState) -> (a: PrimaryAction)
    ensures
        a == (if state == TimerState::Running {
            PrimaryAction::Pause
        } else {
            PrimaryAction::Start
        }),
{
    match state {
        TimerState::Running => PrimaryAction::Pause,
        _ => PrimaryAction::Start,
    }
}

} // verus!
