//! A sample-synchronous software synthesizer engine in fixed-point arithmetic.
//!
//! Audio values are integers scaled by [`FULL_SCALE`]: a sample lies in
//! `[-FULL_SCALE, FULL_SCALE]` and a gain (envelope amplitude, sustain level,
//! master volume) lies in `[0, FULL_SCALE]`.
use vstd::prelude::*;

pub mod duration;
pub mod envelope;
pub mod audio_source;
pub mod waves;
pub mod note;
pub mod track;
pub mod sequencer;
pub mod mixer;

verus! {

/// The integer that stands for the value 1.0 in samples and gains.
pub const FULL_SCALE: u32 = 1_000_000;

} // verus!
