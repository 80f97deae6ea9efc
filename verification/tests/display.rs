use cosmic_pomodoro::display::{primary_action, progress_parts, session_dots, timer_minutes_seconds, PrimaryAction};
use cosmic_pomodoro::timer::TimerState;

#[test]
fn clock_face_splits_minutes_and_seconds() {
    assert_eq!(timer_minutes_seconds(1500), (25, 0));
    assert_eq!(timer_minutes_seconds(61), (1, 1));
    assert_eq!(timer_minutes_seconds(59), (0, 59));
    assert_eq!(timer_minutes_seconds(0), (0, 0));
}

#[test]
fn dots_fill_up_to_the_current_session() {
    assert_eq!(session_dots(4, 1), vec![true, true, false, false]);
    assert_eq!(session_dots(4, 0), vec![true, false, false, false]);
    assert_eq!(session_dots(4, 9), vec![true, true, true, true]);
    assert_eq!(session_dots(0, 5), vec![true]);
    assert_eq!(session_dots(1, 0), vec![true]);
}

#[test]
fn progress_against_the_phase_length() {
    assert_eq!(progress_parts(1200, 1500), Some((300, 1500)));
    assert_eq!(progress_parts(1500, 1500), Some((0, 1500)));
    assert_eq!(progress_parts(0, 1500), Some((1500, 1500)));
}

#[test]
fn progress_of_a_long_break_never_goes_back() {
    assert_eq!(progress_parts(301, 900), Some((599, 900)));
    assert_eq!(progress_parts(300, 900), Some((600, 900)));
    assert_eq!(progress_parts(200, 900), Some((700, 900)));
}

#[test]
fn no_progress_without_a_length() {
    assert_eq!(progress_parts(0, 0), None);
    assert_eq!(progress_parts(5, 0), None);
}

#[test]
fn more_left_than_the_length_shows_nothing_done() {
    assert_eq!(progress_parts(1000, 900), Some((0, 900)));
}

#[test]
fn main_button_pauses_only_a_running_timer() {
    assert_eq!(primary_action(TimerState::Running), PrimaryAction::Pause);
    assert_eq!(primary_action(TimerState::Paused), PrimaryAction::Start);
    assert_eq!(primary_action(TimerState::Created), PrimaryAction::Start);
    assert_eq!(primary_action(TimerState::Finished), PrimaryAction::Start);
}
