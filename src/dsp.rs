use vstd::prelude::*;

verus! {

/// Stage of the per-track ADSR envelope generator.
#[derive(Debug, Clone, Copy, PartialEq, Eq, Structural)]
pub enum AdsrStage {
    Idle,
    Attack,
    Decay,
    Sustain,
    Release,
}

impl AdsrStage {
    /// The envelope sounds in every stage but Idle.
    pub fn is_active(&self) -> (r: bool)
        ensures
            r == (*self != AdsrStage::Idle),
    {
        !matches!(self, AdsrStage::Idle)
    }
}

/// Response shape of a biquad section, after the RBJ cookbook.
#[derive(Debug, Clone, Copy, PartialEq, Eq, Structural)]
pub enum FilterType {
    LowPass,
    HighPass,
    Peaking,
    LowShelf,
    HighShelf,
}

} // verus!
