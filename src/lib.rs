//! Motor control for a singing fish toy: duty ramps, a direction-safe mouth
//! state machine, a head controller, a movement sequencer, and a guard that
//! lets one command at a time drive the motors.
//!
//! The library never touches a pin itself. Each operation updates its model
//! of what the hardware is driven with and returns the plan of actions
//! (duty writes, pin writes, pauses) that performs it; the caller performs
//! the plan in order on the real drivers.
pub mod bass;
pub mod command;
pub mod diagnostics;
pub mod guard;
pub mod hardware;
pub mod ramp;
