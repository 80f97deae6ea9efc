use cosmic_pomodoro::pomodoro::Pomodoro;
use cosmic_pomodoro::timer::{TimerState, TimerType};

fn tick(p: &mut Pomodoro) -> (u64, TimerState, TimerType, bool, usize, u32) {
    p.update_and_return_state().expect("a cycle always reports")
}

#[test]
fn new_cycle_reports_its_first_work_session() {
    let mut p = Pomodoro::new(4, 1500, 300, 900, false, false);
    assert_eq!(tick(&mut p), (1500, TimerState::Created, TimerType::Work, false, 0, 0));
}

#[test]
fn forward_walks_work_and_breaks_in_turn() {
    let mut p = Pomodoro::new(3, 1500, 300, 900, false, false);
    let expected = [
        (300, TimerType::Break, 0),
        (1500, TimerType::Work, 1),
        (300, TimerType::Break, 1),
        (1500, TimerType::Work, 2),
        (900, TimerType::Break, 2),
    ];
    for (remaining, kind, session) in expected {
        p.forward();
        assert_eq!(tick(&mut p), (remaining, TimerState::Created, kind, false, session, 0));
    }
    p.forward();
    assert_eq!(tick(&mut p), (1500, TimerState::Created, TimerType::Work, false, 0, 1));
}

#[test]
fn a_full_round_counts_one_cycle() {
    let mut p = Pomodoro::new(2, 60, 30, 120, false, false);
    p.forward();
    let before = tick(&mut p);
    for _ in 0..4 {
        p.forward();
    }
    let after = tick(&mut p);
    assert_eq!(after.4, before.4);
    assert_eq!(after.2, before.2);
    assert_eq!(after.0, before.0);
    assert_eq!(after.5, before.5 + 1);
}

#[test]
fn no_work_session_leaves_the_long_break_alone() {
    let mut p = Pomodoro::new(0, 1500, 300, 900, false, false);
    assert_eq!(tick(&mut p), (900, TimerState::Created, TimerType::Break, false, 0, 0));
    p.forward();
    assert_eq!(tick(&mut p), (900, TimerState::Created, TimerType::Break, false, 0, 1));
}

#[test]
fn single_session_is_work_then_long_break() {
    let mut p = Pomodoro::new(1, 1500, 300, 900, false, false);
    p.forward();
    assert_eq!(tick(&mut p), (900, TimerState::Created, TimerType::Break, false, 0, 0));
}

#[test]
fn start_and_pause_the_current_timer() {
    let mut p = Pomodoro::new(2, 60, 30, 120, false, false);
    p.start();
    let (remaining, state, kind, started, session, cycle) = tick(&mut p);
    assert!(remaining == 59 || remaining == 60);
    assert_eq!((state, kind, started, session, cycle), (TimerState::Running, TimerType::Work, true, 0, 0));
    p.pause();
    let (remaining, state, _, started, _, _) = tick(&mut p);
    assert!(remaining == 59 || remaining == 60);
    assert_eq!((state, started), (TimerState::Paused, true));
    p.reset_current();
    assert_eq!(tick(&mut p), (60, TimerState::Created, TimerType::Work, false, 0, 0));
}

#[test]
fn pause_of_a_created_timer_does_nothing() {
    let mut p = Pomodoro::new(2, 60, 30, 120, false, false);
    p.pause();
    assert_eq!(tick(&mut p), (60, TimerState::Created, TimerType::Work, false, 0, 0));
}

#[test]
fn forward_resets_the_timer_it_leaves() {
    let mut p = Pomodoro::new(2, 60, 30, 120, false, false);
    p.start();
    p.forward();
    p.forward();
    p.forward();
    p.forward();
    assert_eq!(tick(&mut p), (60, TimerState::Created, TimerType::Work, false, 0, 1));
}

#[test]
fn auto_start_applies_to_its_kind_only() {
    let mut p = Pomodoro::new(2, 60, 30, 120, true, false);
    // the first timer is not started by itself
    assert_eq!(tick(&mut p), (60, TimerState::Created, TimerType::Work, false, 0, 0));
    p.forward();
    assert_eq!(tick(&mut p), (30, TimerState::Created, TimerType::Break, false, 0, 0));
    p.forward();
    let (remaining, state, kind, started, session, _) = tick(&mut p);
    assert!(remaining == 59 || remaining == 60);
    assert_eq!((state, kind, started, session), (TimerState::Running, TimerType::Work, true, 1));
}

#[test]
fn auto_start_of_breaks() {
    let mut p = Pomodoro::new(2, 60, 30, 120, false, true);
    p.forward();
    let (_, state, kind, started, _, _) = tick(&mut p);
    assert_eq!((state, kind, started), (TimerState::Running, TimerType::Break, true));
}

#[test]
fn a_finished_timer_moves_the_cycle_forward() {
    let mut p = Pomodoro::new(1, 0, 0, 0, false, false);
    p.start();
    assert_eq!(tick(&mut p), (0, TimerState::Created, TimerType::Break, false, 0, 0));
    p.start();
    assert_eq!(tick(&mut p), (0, TimerState::Created, TimerType::Work, false, 0, 1));
}

#[test]
fn a_finished_timer_moves_to_an_auto_started_one() {
    let mut p = Pomodoro::new(2, 0, 30, 120, false, true);
    p.start();
    let (remaining, state, kind, started, session, cycle) = tick(&mut p);
    assert!(remaining == 29 || remaining == 30);
    assert_eq!((state, kind, started, session, cycle), (TimerState::Running, TimerType::Break, true, 0, 0));
}
