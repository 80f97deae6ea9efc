# cosmic-pomodoro

The timing core of a Pomodoro applet for the COSMIC desktop, written in Verus.

- `src/timer.rs` — one countdown timer (created, running, paused, finished):
  clock readings are nanoseconds since the timer's own epoch, and each
  clock-reading operation has a companion that takes the readings.
- `src/pomodoro.rs` — the cycle of work sessions, short breaks and the long
  break, and the moves through it.
- `src/session.rs` — the applet's session: settings, the last report, and the
  notice due when the phase changes.
- `src/display.rs` — what the popup and the panel show of a report, with the
  progress measured against the configured length of the current phase.
- `src/laws.rs` — properties that hold across operations.
- `src/clock.rs` — the monotonic clock, the only part taken on trust.
- `app/` — the COSMIC applet (widgets, configuration storage, desktop
  notifications, sounds) around the library.
