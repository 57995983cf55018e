//! Formant speech synthesis: the integer and text logic of the front end.

pub mod dsp;
pub mod espeak;
pub mod frontend;
pub mod phonemes;
pub mod text;

pub use frontend::TtsOptions;

use vstd::prelude::*;

verus! {

/// Output sample rate of the synthesiser, in Hz.
pub const SAMPLE_RATE: u32 = 22050;

} // verus!
