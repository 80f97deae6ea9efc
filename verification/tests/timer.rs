use cosmic_pomodoro::timer::{Timer, TimerState, TimerType, NANOS_PER_SEC};

#[test]
fn new_timer_reports_its_whole_length() {
    let t = Timer::new(90, TimerType::Work);
    assert_eq!(t.get_current_status(), (90, TimerState::Created, TimerType::Work));
}

#[test]
fn started_timer_runs_and_counts_down() {
    let mut t = Timer::new(90, TimerType::Break);
    t.start();
    let (remaining, state, kind) = t.get_current_status();
    assert_eq!(state, TimerState::Running);
    assert_eq!(kind, TimerType::Break);
    assert!(remaining == 89 || remaining == 90);
}

#[test]
fn paused_timer_keeps_what_is_left() {
    let mut t = Timer::new(90, TimerType::Work);
    t.start();
    t.pause();
    let (remaining, state, _) = t.get_current_status();
    assert_eq!(state, TimerState::Paused);
    assert!(remaining == 89 || remaining == 90);
    t.start();
    assert_eq!(t.get_current_status().1, TimerState::Running);
}

#[test]
fn zero_length_timer_finishes_on_the_clock_check() {
    let mut t = Timer::new(0, TimerType::Work);
    t.start();
    t.time_update();
    assert_eq!(t.get_current_status(), (0, TimerState::Finished, TimerType::Work));
    // a finished timer does not start again
    t.start();
    assert_eq!(t.get_current_status(), (0, TimerState::Finished, TimerType::Work));
}

const N: u128 = NANOS_PER_SEC;

#[test]
fn reset_returns_to_the_whole_length() {
    let mut t = Timer::new(30, TimerType::Work);
    t.start_at(0);
    t.pause_at(N, 10 * N);
    assert_eq!(t.status_at(10 * N), (20, TimerState::Paused, TimerType::Work));
    t.reset();
    assert_eq!(t.get_current_status(), (30, TimerState::Created, TimerType::Work));
    t.reset();
    assert_eq!(t.get_current_status(), (30, TimerState::Created, TimerType::Work));
}

#[test]
fn finish_ignores_a_timer_never_started() {
    let mut t = Timer::new(30, TimerType::Break);
    t.finish();
    assert_eq!(t.get_current_status(), (30, TimerState::Created, TimerType::Break));
    t.start();
    t.finish();
    assert_eq!(t.get_current_status(), (0, TimerState::Finished, TimerType::Break));
    t.finish();
    assert_eq!(t.get_current_status(), (0, TimerState::Finished, TimerType::Break));
}

#[test]
fn expiry_comes_exactly_when_the_time_is_used_up() {
    let mut t = Timer::new(10, TimerType::Work);
    t.start_at(5 * N);
    t.time_update_at(15 * N - 1);
    assert_eq!(t.status_at(15 * N - 1), (0, TimerState::Running, TimerType::Work));
    t.time_update_at(15 * N);
    assert_eq!(t.status_at(15 * N), (0, TimerState::Finished, TimerType::Work));
}

#[test]
fn expiry_ignores_a_timer_that_is_not_running() {
    let mut t = Timer::new(10, TimerType::Work);
    t.time_update_at(20 * N);
    assert_eq!(t.status_at(20 * N), (10, TimerState::Created, TimerType::Work));
    t.start_at(0);
    t.pause_at(N, N);
    t.time_update_at(20 * N);
    assert_eq!(t.status_at(20 * N), (9, TimerState::Paused, TimerType::Work));
}

#[test]
fn pause_takes_off_the_time_since_the_last_start() {
    let mut t = Timer::new(10, TimerType::Work);
    t.start_at(N);
    t.pause_at(2 * N, N + 2_500_000_000);
    assert_eq!(t.status_at(0), (7, TimerState::Paused, TimerType::Work));
    let mut u = Timer::new(10, TimerType::Work);
    u.start_at(0);
    u.pause_at(N, 11 * N);
    assert_eq!(u.status_at(0), (0, TimerState::Paused, TimerType::Work));
    // pausing a paused timer changes nothing
    u.pause_at(12 * N, 12 * N);
    assert_eq!(u.status_at(0), (0, TimerState::Paused, TimerType::Work));
}

#[test]
fn a_due_timer_finishes_on_the_check_of_a_pause() {
    let mut t = Timer::new(10, TimerType::Work);
    t.start_at(0);
    t.pause_at(10 * N, 10 * N);
    assert_eq!(t.status_at(0), (0, TimerState::Finished, TimerType::Work));
}

#[test]
fn the_time_spent_paused_is_not_charged() {
    let mut t = Timer::new(10, TimerType::Break);
    t.start_at(0);
    t.pause_at(4 * N, 4 * N);
    t.start_at(100 * N);
    assert_eq!(t.status_at(100 * N), (6, TimerState::Running, TimerType::Break));
    assert_eq!(t.status_at(102 * N), (4, TimerState::Running, TimerType::Break));
    t.time_update_at(105 * N);
    assert_eq!(t.status_at(105 * N), (1, TimerState::Running, TimerType::Break));
    t.time_update_at(106 * N);
    assert_eq!(t.status_at(106 * N), (0, TimerState::Finished, TimerType::Break));
}

#[test]
fn a_second_start_does_not_restart_the_clock() {
    let mut t = Timer::new(10, TimerType::Work);
    t.start_at(0);
    t.start_at(3 * N);
    assert_eq!(t.status_at(3 * N), (7, TimerState::Running, TimerType::Work));
    // a second start after the time is used up finishes the timer
    t.start_at(10 * N);
    assert_eq!(t.status_at(10 * N), (0, TimerState::Finished, TimerType::Work));
}

#[test]
fn status_counts_elapsed_time_only_while_running() {
    let mut t = Timer::new(10, TimerType::Break);
    assert_eq!(t.status_at(3 * N), (10, TimerState::Created, TimerType::Break));
    t.start_at(2 * N);
    assert_eq!(t.status_at(5 * N + 1), (6, TimerState::Running, TimerType::Break));
    assert_eq!(t.status_at(5 * N), (7, TimerState::Running, TimerType::Break));
    assert_eq!(t.status_at(12 * N), (0, TimerState::Running, TimerType::Break));
    assert_eq!(t.status_at(99 * N), (0, TimerState::Running, TimerType::Break));
    // a reading before the start counts as no time at all
    assert_eq!(t.status_at(0), (10, TimerState::Running, TimerType::Break));
}

#[test]
fn duration_is_the_length_in_seconds() {
    assert_eq!(Timer::new(1500, TimerType::Work).duration(), 1500);
}

#[test]
fn longest_timer_reports_its_length() {
    let t = Timer::new(u64::MAX, TimerType::Work);
    assert_eq!(t.get_current_status(), (u64::MAX, TimerState::Created, TimerType::Work));
}
