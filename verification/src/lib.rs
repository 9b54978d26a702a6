//! Waveform assembly engine: builds discrete-time sample segments by
//! repeating a pulse template at a chosen repetition frequency for a chosen
//! duration, padding the gaps with a filler value, and accumulates the
//! segments in a session buffer with a parallel history log.

pub mod assembler;
pub mod catalog;
pub mod error;
pub mod lines;
pub mod rat;
pub mod session;
pub mod settings;
pub mod shell;
pub mod wave;
