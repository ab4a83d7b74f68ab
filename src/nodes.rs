use vstd::prelude::*;

verus! {

/// Mode of the one-knob DJ filter.
#[derive(Debug, Clone, Copy, PartialEq, Eq, Structural)]
pub enum FilterType {
    LowPass,
    HighPass,
}

} // verus!
