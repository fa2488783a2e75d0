//! Band-limited impulse synthesis: a resampling buffer that turns sparse
//! amplitude steps on a fast clock into anti-aliased PCM samples.
//!
//! - [`fixed`]: the fixed-point layout and the arithmetic built on it.
//! - [`kernel`]: the table of band-limited steps.
//! - [`model`]: what each operation of the buffer means, on mathematical
//!   integers and sequences.
//! - [`blipbuffer`]: the buffer itself, specified against the model.
//! - [`laws`]: what follows for every use of the buffer.
//! - [`basic`] and [`chip`]: two producers of steps, a growing square wave
//!   and a chip of four channels.
//! - [`event`]: the lines of the log that the chip plays.

pub mod basic;
pub mod blipbuffer;
pub mod chip;
pub mod event;
pub mod fixed;
pub mod kernel;
pub mod laws;
pub mod model;
