//! Voice management and envelope synthesis for a polyphonic sine instrument.
//!
//! The crate tracks note-on/note-off events in a fixed-capacity pool of
//! voice slots and shapes each voice's output with an
//! attack/decay/sustain/release envelope. Time is counted in integer ticks
//! and gains are exact rationals, so every state transition and every gain
//! the envelope produces is stated and proved exactly; a driver multiplies
//! raw oscillator samples by the gains it is handed.

pub mod adsr;
pub mod keyboard;
pub mod midi;
pub mod ratio;
