use vstd::prelude::*;

pub mod allocator;
pub mod delay;
pub mod dsp;
pub mod export;
pub mod midi;
pub mod mixer;
pub mod modulation;
pub mod nodes;
pub mod ring_buffer;
pub mod synth;

verus! {

} // verus!
