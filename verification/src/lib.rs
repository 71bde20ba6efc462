//! Core of a real-time audio spectrum/waveform visualiser.
//!
//! Audio samples, spectral magnitudes and smoothing factors are carried as
//! Q16.16 fixed-point integers (`fixed::ONE` stands for 1.0), so every stage
//! of the signal path — windowing, magnitude approximation, band mapping,
//! smoothing, decay and the visual state machines — is exact integer
//! arithmetic with verified bounds.
//!
//! The forward FFT itself works on floating-point data and therefore lives
//! outside this library: `AudioProcessor::prepare_input` hands the caller a
//! windowed, DC-removed block, the caller transforms it, and
//! `AudioProcessor::process` takes the complex bins back.

pub mod channel;
pub mod config;
pub mod fixed;
pub mod host;
pub mod packet;
pub mod primitives;
pub mod processor;
pub mod renderer;
pub mod spectrum;
pub mod visualiser;
pub mod waveform;
