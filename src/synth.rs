use vstd::prelude::*;

verus! {

/// Stage of a synth voice's amplitude envelope.
#[derive(Debug, Clone, Copy, PartialEq, Eq, Structural)]
pub enum EnvelopeState {
    Idle,
    Attack,
    Decay,
    Sustain,
    Release,
}

/// Shape of a low-frequency oscillator.
#[derive(Debug, Clone, Copy, PartialEq, Eq, Structural)]
pub enum LfoWave {
    Sine,
    Triangle,
    Saw,
    Square,
    /// Random steps.
    SampleAndHold,
}

/// Shape of an audio oscillator.
#[derive(Debug, Clone, Copy, PartialEq, Eq, Structural)]
pub enum Waveform {
    Sine,
    Saw,
    Square,
    Triangle,
}

} // verus!
