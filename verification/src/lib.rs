//! Audio-synthesis core of a polyphonic oscillator instrument.
//!
//! The crate tracks the currently sounding notes ("voices"), converts MIDI
//! note numbers to frequencies, advances each voice's oscillator phase once
//! per sample, and sums per-voice waveform output into one mono amplitude
//! value per sample.
//!
//! All signal values are exact fixed-point integers: amplitudes, gains and
//! velocities are counted in Q16 steps (65536 stands for one), oscillator
//! phase in 1/2^32 fractions of a cycle, and frequency in 1/2^20 hertz.
//! A host-facing shell converts these to and from its own sample format.

pub mod fixed;
pub mod oscillator;
pub mod synth;
pub mod voice;
