use cosmic_pomodoro::session::{
    phase_notice, PhaseNotice, PomodoroState, PomodoroTickState, SessionCommand, Settings,
    SettingsMessage,
};
use cosmic_pomodoro::timer::{TimerState, TimerType};

fn settings() -> Settings {
    Settings {
        long_break_interval: 4,
        work_time: 25,
        short_break_time: 5,
        long_break_time: 15,
        auto_start_work: false,
        auto_start_break: false,
    }
}

fn tick_state(remaining: u64, timer_type: TimerType, session_count: usize, cycle_count: u32) -> PomodoroTickState {
    PomodoroTickState {
        remaining,
        timer_state: TimerState::Created,
        timer_type,
        started: false,
        session_count,
        cycle_count,
    }
}

#[test]
fn new_session_reports_the_first_work_session() {
    let s = PomodoroState::new(&settings());
    assert_eq!(s.last_tick_state, Some(tick_state(1500, TimerType::Work, 0, 0)));
    assert!(!s.settings_changed);
}

#[test]
fn forward_to_a_break_tells_its_length() {
    let config = settings();
    let mut s = PomodoroState::new(&config);
    let notice = s.handle(SessionCommand::Forward, &config);
    assert_eq!(notice, Some(PhaseNotice::BreakStarts(5)));
    assert_eq!(s.last_tick_state, Some(tick_state(300, TimerType::Break, 0, 0)));
    let notice = s.handle(SessionCommand::Forward, &config);
    assert_eq!(notice, Some(PhaseNotice::WorkStarts(25)));
    assert_eq!(s.last_tick_state, Some(tick_state(1500, TimerType::Work, 1, 0)));
}

#[test]
fn a_tick_without_a_change_of_phase_tells_nothing() {
    let config = settings();
    let mut s = PomodoroState::new(&config);
    assert_eq!(s.handle(SessionCommand::Tick, &config), None);
    assert_eq!(s.handle(SessionCommand::Start, &config), None);
    assert_eq!(s.last_tick_state.map(|t| t.timer_state), Some(TimerState::Running));
    assert_eq!(s.handle(SessionCommand::Pause, &config), None);
    assert_eq!(s.last_tick_state.map(|t| t.timer_state), Some(TimerState::Paused));
}

#[test]
fn restart_builds_the_cycle_anew() {
    let config = settings();
    let mut s = PomodoroState::new(&config);
    s.handle(SessionCommand::Forward, &config);
    s.handle(SessionCommand::Forward, &config);
    assert_eq!(s.handle(SessionCommand::Restart, &config), None);
    assert_eq!(s.last_tick_state, Some(tick_state(1500, TimerType::Work, 0, 0)));
}

#[test]
fn changed_settings_are_taken_in_only_when_marked() {
    let config = settings();
    let mut s = PomodoroState::new(&config);
    let mut changed = config;
    assert!(changed.apply(SettingsMessage::SetWorkTime(50), &config));
    assert_eq!(s.handle(SessionCommand::ApplySettings, &changed), None);
    assert_eq!(s.last_tick_state, Some(tick_state(1500, TimerType::Work, 0, 0)));
    s.mark_settings_changed();
    assert!(s.settings_changed);
    assert_eq!(s.handle(SessionCommand::ApplySettings, &changed), None);
    assert_eq!(s.last_tick_state, Some(tick_state(3000, TimerType::Work, 0, 0)));
    assert!(!s.settings_changed);
}

#[test]
fn new_settings_during_a_break_tell_that_work_begins() {
    let config = settings();
    let mut s = PomodoroState::new(&config);
    s.handle(SessionCommand::Forward, &config);
    s.mark_settings_changed();
    assert_eq!(s.apply_settings_if_needed(&config), Some(PhaseNotice::WorkStarts(25)));
}

#[test]
fn notice_minutes_are_rounded_up() {
    let work = Some(TimerType::Work);
    let brk = Some(TimerType::Break);
    assert_eq!(phase_notice(work, Some(tick_state(61, TimerType::Break, 0, 0))), Some(PhaseNotice::BreakStarts(2)));
    assert_eq!(phase_notice(work, Some(tick_state(60, TimerType::Break, 0, 0))), Some(PhaseNotice::BreakStarts(1)));
    assert_eq!(phase_notice(work, Some(tick_state(0, TimerType::Break, 0, 0))), Some(PhaseNotice::BreakStarts(0)));
    assert_eq!(phase_notice(brk, Some(tick_state(1499, TimerType::Work, 0, 0))), Some(PhaseNotice::WorkStarts(25)));
}

#[test]
fn no_notice_without_a_change_of_phase() {
    assert_eq!(phase_notice(None, Some(tick_state(60, TimerType::Break, 0, 0))), None);
    assert_eq!(phase_notice(Some(TimerType::Work), Some(tick_state(60, TimerType::Work, 0, 0))), None);
    assert_eq!(phase_notice(Some(TimerType::Break), Some(tick_state(60, TimerType::Break, 0, 0))), None);
    assert_eq!(phase_notice(Some(TimerType::Break), None), None);
}

#[test]
fn settings_change_only_when_a_value_differs() {
    let defaults = settings();
    let mut s = defaults;
    assert!(!s.apply(SettingsMessage::SetWorkTime(25), &defaults));
    assert!(!s.apply(SettingsMessage::SetAutoStartWork(false), &defaults));
    assert!(s.apply(SettingsMessage::SetAutoStartBreak(true), &defaults));
    assert!(s.auto_start_break);
    assert!(s.apply(SettingsMessage::SetLongBreakInterval(2), &defaults));
    assert!(s.apply(SettingsMessage::SetShortBreakTime(7), &defaults));
    assert!(s.apply(SettingsMessage::SetLongBreakTime(20), &defaults));
    assert!(s.apply(SettingsMessage::SetAutoStartWork(true), &defaults));
    assert_eq!(s.long_break_interval, 2);
    assert_eq!(s.short_break_time, 7);
    assert_eq!(s.long_break_time, 20);
    assert!(s.apply(SettingsMessage::ResetToDefault, &defaults));
    assert_eq!(s, defaults);
    // a reset always counts as a change
    assert!(s.apply(SettingsMessage::ResetToDefault, &defaults));
}

#[test]
fn usable_settings_fit_in_seconds() {
    assert!(settings().is_usable());
    let mut s = settings();
    s.work_time = u64::MAX / 60;
    assert!(s.is_usable());
    s.work_time = u64::MAX / 60 + 1;
    assert!(!s.is_usable());
    let mut t = settings();
    t.long_break_interval = u64::MAX;
    assert!(!t.is_usable());
}

#[test]
fn tick_state_names_the_report() {
    let t = PomodoroTickState::from_tuple((42, TimerState::Paused, TimerType::Break, true, 3, 7));
    assert_eq!(t.remaining, 42);
    assert_eq!(t.timer_state, TimerState::Paused);
    assert_eq!(t.timer_type, TimerType::Break);
    assert!(t.started);
    assert_eq!(t.session_count, 3);
    assert_eq!(t.cycle_count, 7);
    assert_eq!(PomodoroTickState::default(), tick_state(0, TimerType::Work, 0, 0));
}

#[test]
fn progress_is_measured_against_the_configured_phase_length() {
    let config = settings();
    let mut s = PomodoroState::new(&config);
    assert_eq!(s.progress(&config), Some((0, 1500)));
    s.handle(SessionCommand::Forward, &config);
    assert_eq!(s.progress(&config), Some((0, 300)));
    // a changed short break time counts at once, as it is configured
    let mut changed = config;
    changed.apply(SettingsMessage::SetShortBreakTime(10), &config);
    assert_eq!(s.progress(&changed), Some((300, 600)));
}

#[test]
fn work_progress_follows_the_configured_work_time() {
    let mut longer = settings();
    longer.work_time = 50;
    let mut s = PomodoroState::new(&longer);
    s.last_tick_state = Some(PomodoroTickState { remaining: 750, ..tick_state(3000, TimerType::Work, 0, 0) });
    assert_eq!(s.progress(&settings()), Some((750, 1500)));
    s.last_tick_state = Some(tick_state(1500, TimerType::Work, 0, 0));
    assert_eq!(s.progress(&settings()), Some((0, 1500)));
    s.last_tick_state = Some(tick_state(0, TimerType::Work, 0, 0));
    assert_eq!(s.progress(&settings()), Some((1500, 1500)));
}

#[test]
fn the_last_break_is_measured_against_the_long_break_time() {
    let mut config = settings();
    config.long_break_interval = 1;
    let mut s = PomodoroState::new(&config);
    s.handle(SessionCommand::Forward, &config);
    assert_eq!(s.progress(&config), Some((0, 900)));
    s.last_tick_state = Some(tick_state(301, TimerType::Break, 0, 0));
    assert_eq!(s.progress(&config), Some((599, 900)));
    s.last_tick_state = Some(tick_state(300, TimerType::Break, 0, 0));
    assert_eq!(s.progress(&config), Some((600, 900)));
}

#[test]
fn no_progress_before_a_report_or_without_a_length() {
    let config = settings();
    let mut s = PomodoroState::new(&config);
    let mut zero = config;
    zero.work_time = 0;
    assert_eq!(s.progress(&zero), None);
    s.last_tick_state = None;
    assert_eq!(s.progress(&config), None);
}

#[test]
fn accepts_needs_usable_settings_only_to_build_a_cycle() {
    let config = settings();
    let mut s = PomodoroState::new(&config);
    let mut huge = config;
    huge.work_time = u64::MAX;
    assert!(s.accepts(SessionCommand::Tick, &huge));
    assert!(s.accepts(SessionCommand::Start, &huge));
    assert!(s.accepts(SessionCommand::Pause, &huge));
    assert!(s.accepts(SessionCommand::Forward, &huge));
    assert!(s.accepts(SessionCommand::ApplySettings, &huge));
    assert!(!s.accepts(SessionCommand::Restart, &huge));
    s.mark_settings_changed();
    assert!(!s.accepts(SessionCommand::ApplySettings, &huge));
    assert!(s.accepts(SessionCommand::ApplySettings, &config));
    // the commands that do not build a cycle run with such settings
    assert_eq!(s.handle(SessionCommand::Tick, &huge), None);
}
