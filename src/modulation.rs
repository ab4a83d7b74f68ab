use vstd::prelude::*;

verus! {

/// Where a modulation value comes from; indexed sources name one LFO, envelope or macro.
#[derive(Debug, Clone, Copy, PartialEq, Eq, Structural)]
pub enum ModSource {
    Lfo(usize),
    Envelope(usize),
    Velocity,
    KeyTrack,
    Macro(usize),
}

/// What a modulation value acts on; indexed targets name one oscillator.
#[derive(Debug, Clone, Copy, PartialEq, Eq, Structural)]
pub enum ModTarget {
    FilterCutoff,
    FilterResonance,
    OscPitch(usize),
    OscWave(usize),
    Gain,
    Pan,
}

impl ModTarget {
    /// A routing to `self` feeds `query`: the same variant and, for an indexed one, the same index.
    pub fn matches(&self, query: &ModTarget) -> (r: bool)
        ensures
            r == (*self == *query),
    {
        match (self, query) {
            (ModTarget::FilterCutoff, ModTarget::FilterCutoff) => true,
            (ModTarget::FilterResonance, ModTarget::FilterResonance) => true,
            (ModTarget::Gain, ModTarget::Gain) => true,
            (ModTarget::Pan, ModTarget::Pan) => true,
            (ModTarget::OscPitch(i), ModTarget::OscPitch(j)) => *i == *j,
            (ModTarget::OscWave(i), ModTarget::OscWave(j)) => *i == *j,
            _ => false,
        }
    }
}

} // verus!
