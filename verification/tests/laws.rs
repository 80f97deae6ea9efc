use cosmic_pomodoro::pomodoro::Pomodoro;
use cosmic_pomodoro::timer::{Timer, TimerState, TimerType, NANOS_PER_SEC};

#[test]
fn countdown_never_goes_up_on_sample_readings() {
    let mut t = Timer::new(100, TimerType::Work);
    t.start_at(7 * NANOS_PER_SEC);
    let mut last = u64::MAX;
    for step in 0..250u128 {
        let (remaining, _, _) = t.status_at(step * NANOS_PER_SEC / 2);
        assert!(remaining <= last);
        assert!(remaining <= 100);
        last = remaining;
    }
    assert_eq!(last, 0);
}

#[test]
fn only_reset_gives_back_time() {
    let n = NANOS_PER_SEC;
    let mut t = Timer::new(60, TimerType::Break);
    t.start_at(0);
    t.pause_at(20 * n, 20 * n);
    assert_eq!(t.status_at(0).0, 40);
    t.start_at(30 * n);
    assert_eq!(t.status_at(30 * n).0, 40);
    t.pause_at(45 * n, 45 * n);
    assert_eq!(t.status_at(0).0, 25);
    t.finish();
    assert_eq!(t.status_at(0), (0, TimerState::Finished, TimerType::Break));
    t.reset();
    assert_eq!(t.status_at(0), (60, TimerState::Created, TimerType::Break));
}

#[test]
fn every_move_forward_lands_on_a_fresh_timer_within_the_interval() {
    let interval = 3u64;
    let mut p = Pomodoro::new(interval, 10, 5, 20, false, false);
    let mut kinds = Vec::new();
    for _ in 0..(2 * interval as usize) {
        p.start();
        p.forward();
        let (remaining, state, kind, started, session, _) = p.update_and_return_state().unwrap();
        assert_eq!(state, TimerState::Created);
        assert!(!started);
        assert!((session as u64) < interval);
        assert!(remaining == 10 || remaining == 5 || remaining == 20);
        kinds.push(kind);
    }
    // work and breaks alternate, beginning with work after the wrap
    assert_eq!(
        kinds,
        vec![TimerType::Break, TimerType::Work, TimerType::Break, TimerType::Work, TimerType::Break, TimerType::Work]
    );
    assert_eq!(p.update_and_return_state().unwrap().5, 1);
}
