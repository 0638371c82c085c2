//! Motion planning, coil sequencing and command dispatch for a two-axis
//! antenna rotator driven by unipolar stepper motors.
//!
//! The library decides; it never touches a GPIO line or a socket. Every
//! operation that moves a motor returns the [`sequencer::Drive`]s that the
//! caller must carry out on the lines, and every command returns the text
//! that the caller must send back.

pub mod angle;
pub mod decimal;
pub mod handler;
pub mod hardware;
pub mod message;
pub mod movement;
pub mod position;
pub mod rotator;
pub mod sequencer;
