//! A real-time pacing layer for a cycle-stepped game console emulator.
//!
//! The host calls in once per display tick with the time that has passed.
//! The session turns that time into a budget of emulated cycles, lets the
//! machine execute steps until the budget is used up, collects the video
//! output in its pixel buffer, and tells the host whether a frame was
//! completed. Between slices the host forwards key events, which set the
//! level of the controller buttons.

pub mod display;
pub mod input;
pub mod pace;
pub mod session;
pub mod timing;

pub use input::{Button, GamePad};
pub use pace::{Action, StepOutcome};
pub use session::System;
