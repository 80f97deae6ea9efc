//! The applet's Pomodoro session: the cycle built from the user's settings,
//! the last state reported by it, and the notices due when the phase changes.
use vstd::prelude::*;
use crate::pomodoro::{cycle_plan, Pomodoro, PomodoroView, TickReport};
use crate::timer::{TimerState, TimerType};
use crate::display::{configured_length, configured_phase_length, progress_of, progress_parts};

verus! {

/// The user's settings. Times are in minutes.
#[derive(Debug, Clone, Copy, PartialEq, Eq, Structural)]
pub struct Settings {
    pub long_break_interval: u64,
    pub work_time: u64,
    pub short_break_time: u64,
    pub long_break_time: u64,
    pub auto_start_work: bool,
    pub auto_start_break: bool,
}

/// A change of one setting, as the settings view sends it.
#[derive(Debug, Clone, Copy, PartialEq, Eq, Structural)]
pub enum SettingsMessage {
    ResetToDefault,
    SetLongBreakInterval(u64),
    SetWorkTime(u64),
    SetShortBreakTime(u64),
    SetLongBreakTime(u64),
    SetAutoStartWork(bool),
    SetAutoStartBreak(bool),
}

impl Settings {
    /// Whether a cycle can be built from these settings: the times in seconds
    /// fit in `u64` and the timers fit in memory.
    pub open spec fn usable(self) -> bool {
        &&& 2 * self.long_break_interval <= usize::MAX
        &&& self.work_time * 60 <= u64::MAX
        &&& self.short_break_time * 60 <= u64::MAX
        &&& self.long_break_time * 60 <= u64::MAX
    }

    /// Tests `usable`.
    pub fn is_usable(&self) -> (b: bool)
        ensures
            b == self.usable(),
    {
        self.long_break_interval <= (usize::MAX / 2) as u64 && self.work_time <= u64::MAX / 60
            && self.short_break_time <= u64::MAX / 60 && self.long_break_time <= u64::MAX / 60
    }

    /// The settings after `msg`, with `defaults` as what a reset goes back to.
    pub open spec fn applied(self, msg: SettingsMessage, defaults: Settings) -> Settings {
        match msg {
            SettingsMessage::ResetToDefault => defaults,
            SettingsMessage::SetLongBreakInterval(v) => Settings { long_break_interval: v, ..self },
            SettingsMessage::SetWorkTime(v) => Settings { work_time: v, ..self },
            SettingsMessage::SetShortBreakTime(v) => Settings { short_break_time: v, ..self },
            SettingsMessage::SetLongBreakTime(v) => Settings { long_break_time: v, ..self },
            SettingsMessage::SetAutoStartWork(v) => Settings { auto_start_work: v, ..self },
            SettingsMessage::SetAutoStartBreak(v) => Settings { auto_start_break: v, ..self },
        }
    }

    /// Applies `msg`. Returns whether the settings were changed and must be
    /// stored and taken into the cycle: always for a reset, and for a single
    /// setting exactly when its value differs.
    pub fn apply(&mut self, msg: SettingsMessage, defaults: &Settings) -> (changed: bool)
        ensures
            *final(self) == old(self).applied(msg, *defaults),
            changed == (msg == SettingsMessage::ResetToDefault || *final(self) != *old(self)),
    {
        match msg {
            SettingsMessage::ResetToDefault => {
                *self = *defaults;
                true
            },
            SettingsMessage::SetLongBreakInterval(v) => {
                if self.long_break_interval != v {
                    self.long_break_interval = v;
                    true
                } else {
                    false
                }
            },
            SettingsMessage::SetWorkTime(v) => {
                if self.work_time != v {
                    self.work_time = v;
                    true
                } else {
                    false
                }
            },
            SettingsMessage::SetShortBreakTime(v) => {
                if self.short_break_time != v {
                    self.short_break_time = v;
                    true
                } else {
                    false
                }
            },
            SettingsMessage::SetLongBreakTime(v) => {
                if self.long_break_time != v {
                    self.long_break_time = v;
                    true
                } else {
                    false
                }
            },
            SettingsMessage::SetAutoStartWork(v) => {
                if self.auto_start_work != v {
                    self.auto_start_work = v;
                    true
                } else {
                    false
                }
            },
            SettingsMessage::SetAutoStartBreak(v) => {
                if self.auto_start_break != v {
                    self.auto_start_break = v;
                    true
                } else {
                    false
                }
            },
        }
    }
}

/// The cycle that the settings describe, before anything has happened.
pub open spec fn initial_cycle(s: Settings) -> PomodoroView {
    PomodoroView {
        auto_start_work: s.auto_start_work,
        auto_start_break: s.auto_start_break,
        timers: cycle_plan(
            s.long_break_interval as nat,
            (s.work_time * 60) as nat,
            (s.short_break_time * 60) as nat,
            (s.long_break_time * 60) as nat,
        ),
        cycle_count: 0,
        timer_pointer: 0,
    }
}

/// One report of the cycle, by name.
#[derive(Debug, Clone, Copy, PartialEq, Eq, Structural)]
pub struct PomodoroTickState {
    pub remaining: u64,
    pub timer_state: TimerState,
    pub timer_type: TimerType,
    pub started: bool,
    pub session_count: usize,
    pub cycle_count: u32,
}

/// The report `r` by name.
pub open spec fn tick_state_of(r: TickReport) -> PomodoroTickState {
    PomodoroTickState {
        remaining: r.0,
        timer_state: r.1,
        timer_type: r.2,
        started: r.3,
        session_count: r.4,
        cycle_count: r.5,
    }
}

impl PomodoroTickState {
    /// Names the parts of a report.
    pub fn from_tuple(value: TickReport) -> (s: PomodoroTickState)
        ensures
            s == tick_state_of(value),
    {
        PomodoroTickState {
            remaining: value.0,
            timer_state: value.1,
            timer_type: value.2,
            started: value.3,
            session_count: value.4,
            cycle_count: value.5,
        }
    }
}

impl Default for PomodoroTickState {
    /// Nothing left, a created work timer, nothing started.
    fn default() -> (s: PomodoroTickState)
        ensures
            s == (PomodoroTickState {
                remaining: 0,
                timer_state: TimerState::Created,
                timer_type: TimerType::Work,
                started: false,
                session_count: 0,
                cycle_count: 0,
            }),
    {
        PomodoroTickState {
            remaining: 0,
            timer_state: TimerState::Created,
            timer_type: TimerType::Work,
            started: false,
            session_count: 0,
            cycle_count: 0,
        }
    }
}

/// What the user is told when the phase changes.
#[derive(Debug, Clone, Copy, PartialEq, Eq, Structural)]
pub enum PhaseNotice {
    /// Work ended; a break of this many minutes begins.
    BreakStarts(u64),
    /// A break ended; work of this many minutes begins.
    WorkStarts(u64),
}

/// `n / d` rounded up.
pub open spec fn ceil_div(n: nat, d: nat) -> nat {
    if n % d == 0 { n / d } else { n / d + 1 }
}

/// The kind of timer a report speaks of, if there is one.
pub open spec fn kind_of(tick: Option<PomodoroTickState>) -> Option<TimerType> {
    match tick {
        Some(t) => Some(t.timer_type),
        None => None,
    }
}

/// The notice due when the phase goes from `previous` to what `next` reports:
/// one when work turns to break or break to work, with the new phase's
/// remaining time in whole minutes, rounded up.
pub open spec fn notice_for(previous: Option<TimerType>, next: Option<PomodoroTickState>) -> Option<PhaseNotice> {
    match (previous, next) {
        (Some(TimerType::Work), Some(t)) => if t.timer_type == TimerType::Break {
            Some(PhaseNotice::BreakStarts(ceil_div(t.remaining as nat, 60) as u64))
        } else {
            None
        },
        (Some(TimerType::Break), Some(t)) => if t.timer_type == TimerType::Work {
            Some(PhaseNotice::WorkStarts(ceil_div(t.remaining as nat, 60) as u64))
        } else {
            None
        },
        _ => None,
    }
}

/// The notice due when the phase goes from `previous` to what `next` reports.
pub fn phase_notice(previous: Option<TimerType>, next: Option<PomodoroTickState>) -> (n: Option<PhaseNotice>)
    ensures
        n == notice_for(previous, next),
{
    let minutes: u64 = match next {
        Some(t) => t.remaining / 60 + if t.remaining % 60 == 0 {
            0
        } else {
            1
        },
        None => 0,
    };
    match (previous, next) {
        (Some(TimerType::Work), Some(t)) => {
            if t.timer_type == TimerType::Break {
                Some(PhaseNotice::BreakStarts(minutes))
            } else {
                None
            }
        },
        (Some(TimerType::Break), Some(t)) => {
            if t.timer_type == TimerType::Work {
                Some(PhaseNotice::WorkStarts(minutes))
            } else {
                None
            }
        },
        _ => None,
    }
}

/// What the applet asks of the session.
#[derive(Debug, Clone, Copy, PartialEq, Eq, Structural)]
pub enum SessionCommand {
    /// The periodic check of the clock.
    Tick,
    Start,
    Pause,
    /// Skip to the next phase.
    Forward,
    /// Start the whole cycle over from the settings.
    Restart,
    /// Take changed settings into the cycle, if any were changed.
    ApplySettings,
}

/// The applet's session: the cycle, its last report, and whether the settings
/// changed since the cycle was built.
pub struct PomodoroState {
    pub pomodoro: Pomodoro,
    pub last_tick_state: Option<PomodoroTickState>,
    pub settings_changed: bool,
}

impl PomodoroState {
    /// The session's invariant: its cycle keeps its own.
    pub open spec fn wf(&self) -> bool {
        self.pomodoro.wf()
    }

    /// Whether the session can take a tick (see `PomodoroView::can_tick`).
    pub open spec fn can_tick(&self) -> bool {
        self.pomodoro@.can_tick()
    }

    /// The cycle that `settings` describe (times turned into seconds).
    pub fn new_pomodoro(settings: &Settings) -> (p: Pomodoro)
        requires
            settings.usable(),
        ensures
            p.wf(),
            p@ == initial_cycle(*settings),
    {
        Pomodoro::new(
            settings.long_break_interval,
            settings.work_time * 60,
            settings.short_break_time * 60,
            settings.long_break_time * 60,
            settings.auto_start_work,
            settings.auto_start_break,
        )
    }

    /// A session on the cycle that `settings` describe, with its first report
    /// taken.
    pub fn new(settings: &Settings) -> (s: PomodoroState)
        requires
            settings.usable(),
        ensures
            s.wf(),
            s.pomodoro@ == initial_cycle(*settings),
            s.last_tick_state == Some(tick_state_of(initial_cycle(*settings).report_at(0))),
            !s.settings_changed,
    {
        let mut this = PomodoroState {
            pomodoro: Self::new_pomodoro(settings),
            last_tick_state: None,
            settings_changed: false,
        };
        proof {
            lemma_fresh_cycle_tick(*settings);
        }
        this.refresh_state();
        this
    }

    /// Records that the settings changed.
    pub fn mark_settings_changed(&mut self)
        ensures
            final(self).settings_changed,
            final(self).pomodoro@ == old(self).pomodoro@,
            final(self).last_tick_state == old(self).last_tick_state,
    {
        self.settings_changed = true;
    }

    /// Takes the cycle's report after its clock check (which may move it
    /// forward), keeps it, and returns the notice that the change of phase
    /// since the last report calls for.
    pub fn refresh_state(&mut self) -> (notice: Option<PhaseNotice>)
        requires
            old(self).wf(),
            old(self).can_tick(),
        ensures
            final(self).wf(),
            final(self).settings_changed == old(self).settings_changed,
            exists|check: nat, now: nat| final(self).pomodoro@ == #[trigger] old(self).pomodoro@.ticked_at(check, now),
            exists|now: nat|
                final(self).last_tick_state == Some(tick_state_of(#[trigger] final(self).pomodoro@.report_at(now))),
            final(self).pomodoro.epochs() == old(self).pomodoro.epochs(),
            notice == notice_for(kind_of(old(self).last_tick_state), final(self).last_tick_state),
    {
        let previous_timer_type = match &self.last_tick_state {
            Some(s) => Some(s.timer_type),
            None => None,
        };
        let report = self.pomodoro.update_and_return_state();
        self.last_tick_state = match report {
            Some(r) => Some(PomodoroTickState::from_tuple(r)),
            None => None,
        };
        proof {
            let now = choose|now: nat| report == Some(#[trigger] self.pomodoro@.report_at(now));
            assert(self.last_tick_state == Some(tick_state_of(self.pomodoro@.report_at(now))));
        }
        phase_notice(previous_timer_type, self.last_tick_state)
    }

    /// When the settings changed since the cycle was built, builds the cycle
    /// anew from `settings`, clears the mark and takes the first report (with
    /// its notice). Otherwise nothing changes.
    pub fn apply_settings_if_needed(&mut self, settings: &Settings) -> (notice: Option<PhaseNotice>)
        requires
            old(self).wf(),
            old(self).settings_changed ==> settings.usable(),
        ensures
            final(self).wf(),
            !old(self).settings_changed ==> final(self).pomodoro@ == old(self).pomodoro@
                && final(self).pomodoro.epochs() == old(self).pomodoro.epochs()
                && final(self).last_tick_state == old(self).last_tick_state
                && !final(self).settings_changed && notice is None,
            old(self).settings_changed ==> final(self).pomodoro@ == initial_cycle(*settings)
                && !final(self).settings_changed
                && final(self).last_tick_state == Some(tick_state_of(initial_cycle(*settings).report_at(0)))
                && notice == notice_for(kind_of(old(self).last_tick_state), final(self).last_tick_state),
    {
        if self.settings_changed {
            self.pomodoro = Self::new_pomodoro(settings);
            self.settings_changed = false;
            proof {
                lemma_fresh_cycle_tick(*settings);
            }
            self.refresh_state()
        } else {
            None
        }
    }

    /// Whether `handle` can take `command` with `settings`: the cycle count
    /// stays within `u32` through the moves forward the command may make, and
    /// a cycle that is built anew can be built from the settings.
    pub open spec fn accepts_spec(&self, command: SessionCommand, settings: Settings) -> bool {
        match command {
            SessionCommand::Tick => self.can_tick(),
            SessionCommand::Pause => self.can_tick(),
            SessionCommand::Start => self.pomodoro@.can_forward(),
            SessionCommand::Forward => self.pomodoro@.can_forward() && forall|now: nat|
                #[trigger] self.pomodoro@.forwarded_at(now).can_tick(),
            SessionCommand::Restart => settings.usable(),
            SessionCommand::ApplySettings => self.settings_changed ==> settings.usable(),
        }
    }

    /// Tests `accepts_spec`.
    pub fn accepts(&self, command: SessionCommand, settings: &Settings) -> (b: bool)
        requires
            self.wf(),
        ensures
            b == self.accepts_spec(command, *settings),
    {
        match command {
            SessionCommand::Tick => {
                self.pomodoro.can_tick()
            },
            SessionCommand::Pause => self.pomodoro.can_tick(),
            SessionCommand::Start => self.pomodoro.can_forward(),
            SessionCommand::Forward => {
                let b = self.pomodoro.can_forward() && (self.pomodoro.can_forward_twice()
                    || !self.pomodoro.next_starts_by_itself());
                proof {
                    assert forall|now: nat| #[trigger] self.pomodoro@.forwarded_at(now).can_tick() == (
                    self.pomodoro@.forwarded_at(now).can_forward() || !self.pomodoro@.auto_starts(
                        self.pomodoro@.forwarded_at(now).current().kind,
                    )) by {
                        crate::laws::lemma_forward_moves_to_fresh_next(self.pomodoro@, now);
                    }
                    let f0 = self.pomodoro@.forwarded_at(0);
                    assert(f0.can_tick() == (f0.can_forward() || !self.pomodoro@.auto_starts(f0.current().kind)));
                    if !b && self.pomodoro@.can_forward() {
                        assert(f0.can_forward() == false || self.pomodoro@.auto_starts(f0.current().kind));
                        assert(!f0.can_tick());
                    }
                }
                b
            },
            SessionCommand::Restart => settings.is_usable(),
            SessionCommand::ApplySettings => !self.settings_changed || settings.is_usable(),
        }
    }

    /// The panel's progress through the current phase: the last report's time
    /// left against the configured length of its phase (the work time for
    /// work; the long break time for the last phase of the cycle and the short
    /// break time for any other break); none before the first report or for a
    /// phase without length.
    pub fn progress(&self, settings: &Settings) -> (parts: Option<(u64, u64)>)
        requires
            self.wf(),
        ensures
            match self.last_tick_state {
                None => parts is None,
                Some(t) => match progress_of(
                    t.remaining as nat,
                    configured_length(
                        t.timer_type,
                        *settings,
                        self.pomodoro@.timer_pointer + 1 == self.pomodoro@.timers.len(),
                    ),
                ) {
                    None => parts is None,
                    Some(p) => parts == Some((p.0 as u64, p.1 as u64)),
                },
            },
    {
        match self.last_tick_state {
            None => None,
            Some(t) => {
                let is_last = self.pomodoro.current_is_last();
                let length = configured_phase_length(t.timer_type, settings, is_last);
                progress_parts(t.remaining, length)
            },
        }
    }

    /// Carries out `command` and returns the notice it calls for.
    pub fn handle(&mut self, command: SessionCommand, settings: &Settings) -> (notice: Option<PhaseNotice>)
        requires
            old(self).wf(),
            old(self).accepts_spec(command, *settings),
        ensures
            final(self).wf(),
            command == SessionCommand::Tick ==> exists|check: nat, now: nat|
                final(self).pomodoro@ == #[trigger] old(self).pomodoro@.ticked_at(check, now),
            command == SessionCommand::Start ==> exists|s: nat, check: nat, now: nat|
                final(self).pomodoro@ == #[trigger] old(self).pomodoro@.started_at(s).ticked_at(check, now),
            command == SessionCommand::Pause ==> exists|c1: nat, n1: nat, check: nat, now: nat|
                final(self).pomodoro@ == #[trigger] old(self).pomodoro@.paused_at(c1, n1).ticked_at(check, now),
            command == SessionCommand::Forward ==> exists|f: nat, check: nat, now: nat|
                final(self).pomodoro@ == #[trigger] old(self).pomodoro@.forwarded_at(f).ticked_at(check, now),
            command == SessionCommand::Restart ==> final(self).pomodoro@ == initial_cycle(*settings)
                && final(self).last_tick_state == Some(tick_state_of(initial_cycle(*settings).report_at(0)))
                && !final(self).settings_changed && notice is None,
            command == SessionCommand::ApplySettings ==> (if old(self).settings_changed {
                final(self).pomodoro@ == initial_cycle(*settings)
                    && final(self).last_tick_state == Some(tick_state_of(initial_cycle(*settings).report_at(0)))
                    && notice == notice_for(kind_of(old(self).last_tick_state), final(self).last_tick_state)
            } else {
                final(self).pomodoro@ == old(self).pomodoro@ && final(self).last_tick_state == old(self).last_tick_state
                    && final(self).pomodoro.epochs() == old(self).pomodoro.epochs()
                    && notice is None
            }) && !final(self).settings_changed,
            command != SessionCommand::Restart && command != SessionCommand::ApplySettings ==> (exists|now: nat|
                final(self).last_tick_state == Some(tick_state_of(#[trigger] final(self).pomodoro@.report_at(now))))
                && final(self).settings_changed == old(self).settings_changed
                && final(self).pomodoro.epochs() == old(self).pomodoro.epochs()
                && notice == notice_for(kind_of(old(self).last_tick_state), final(self).last_tick_state),
    {
        match command {
            SessionCommand::Tick => self.refresh_state(),
            SessionCommand::Start => {
                self.pomodoro.start();
                let ghost v = self.pomodoro@;
                proof {
                    let s = choose|s: nat| v == #[trigger] old(self).pomodoro@.started_at(s);
                    crate::laws::lemma_ops_keep_cycle(old(self).pomodoro@, 0, s);
                }
                let n = self.refresh_state();
                proof {
                    let s = choose|s: nat| v == #[trigger] old(self).pomodoro@.started_at(s);
                    let (c, t) = choose|c: nat, t: nat| self.pomodoro@ == #[trigger] v.ticked_at(c, t);
                    assert(self.pomodoro@ == old(self).pomodoro@.started_at(s).ticked_at(c, t));
                }
                n
            },
            SessionCommand::Pause => {
                self.pomodoro.pause();
                let ghost v = self.pomodoro@;
                proof {
                    let (c1, n1) = choose|c1: nat, n1: nat| v == #[trigger] old(self).pomodoro@.paused_at(c1, n1);
                    crate::laws::lemma_ops_keep_cycle(old(self).pomodoro@, c1, n1);
                }
                let n = self.refresh_state();
                proof {
                    let (c1, n1) = choose|c1: nat, n1: nat| v == #[trigger] old(self).pomodoro@.paused_at(c1, n1);
                    let (c, t) = choose|c: nat, t: nat| self.pomodoro@ == #[trigger] v.ticked_at(c, t);
                    assert(self.pomodoro@ == old(self).pomodoro@.paused_at(c1, n1).ticked_at(c, t));
                }
                n
            },
            SessionCommand::Forward => {
                self.pomodoro.forward();
                let ghost v = self.pomodoro@;
                let n = self.refresh_state();
                proof {
                    let f = choose|f: nat| v == #[trigger] old(self).pomodoro@.forwarded_at(f);
                    let (c, t) = choose|c: nat, t: nat| self.pomodoro@ == #[trigger] v.ticked_at(c, t);
                    assert(self.pomodoro@ == old(self).pomodoro@.forwarded_at(f).ticked_at(c, t));
                }
                n
            },
            SessionCommand::Restart => {
                *self = PomodoroState::new(settings);
                None
            },
            SessionCommand::ApplySettings => self.apply_settings_if_needed(settings),
        }
    }
}

/// The first tick of a fresh cycle changes nothing and reports its first
/// timer, untouched.
proof fn lemma_fresh_cycle_tick(s: Settings)
    requires
        s.usable(),
    ensures
        initial_cycle(s).wf(),
        initial_cycle(s).can_tick(),
        forall|c: nat, n: nat| #[trigger] initial_cycle(s).ticked_at(c, n) == initial_cycle(s),
        forall|r: nat| #[trigger] initial_cycle(s).report_at(r) == initial_cycle(s).report_at(0),
{
    let v = initial_cycle(s);
    assert(v.timers[0].wf());
    assert forall|c: nat, n: nat| #[trigger] v.ticked_at(c, n) == v by {
        assert(v.current().expired_at(c) == v.current());
        assert(v.with_current(v.current().expired_at(c)).timers =~= v.timers);
    }
}

} // verus!
