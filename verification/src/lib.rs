//! The timing core of a Pomodoro applet: single countdown timers, the
//! work/break cycle built from them, and the decisions that the applet's
//! user interface takes from the cycle's state.
pub mod clock;
pub mod timer;
pub mod pomodoro;
pub mod laws;
pub mod session;
pub mod display;
