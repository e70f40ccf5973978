//! Port binding, atom decoding and a polyphonic synthesizer for audio plugins.
use vstd::prelude::*;

pub mod atom;
pub mod midi;
pub mod port;
pub mod sequence;
pub mod synth;
pub mod urid;

verus! {

} // verus!
