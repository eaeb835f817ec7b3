//! The signal graph: audio configuration, samples, buffers and modules.

pub mod adsr;
pub mod buffer;
pub mod catalog;
pub mod compute;
pub mod filter;
pub mod freeverb;
pub mod graph;
pub mod ident;
pub mod math;
pub mod mixer;
pub mod module;
pub mod oscillator;
pub mod output;
pub mod patchbay;
pub mod planner;
pub mod sample;
pub mod sequencer;
pub mod vca;
pub mod wave;

use vstd::prelude::*;

pub use buffer::AudioBuffer;
pub use catalog::get_catalog;
pub use catalog::ModuleKind;
pub use catalog::SynthModuleType;
pub use compute::Kernels;
pub use compute::WaveState;
pub use graph::execute;
pub use graph::get_inputs;
pub use graph::plan_execution;
pub use graph::resolve_input;
pub use graph::shared_are_eq;
pub use graph::ui_dirty;
pub use ident::ModuleId;
pub use patchbay::Connection;
pub use module::SynthModule;
pub use patchbay::Patchbay;

verus! {

/// One sample of a signal, held as the bit pattern of an IEEE-754 binary32
/// number.
pub type ControlVoltage = u32;

/// The bit pattern of `0.0`: silence, a closed gate.
pub const SILENCE: ControlVoltage = 0;

/// The bit pattern of `1.0`: an open gate, a sync pulse.
pub const UNITY: ControlVoltage = 0x3F80_0000;

/// The bit pattern of positive infinity, the largest pattern that compares
/// greater than zero; everything above it, up to the sign bit, is a NaN.
pub const POSITIVE_INFINITY: ControlVoltage = 0x7F80_0000;

/// The highest sample rate a configuration may ask for.
pub const MAX_SAMPLE_RATE: u32 = 96000;

/// The highest channel count a configuration may ask for.
pub const MAX_CHANNELS: u8 = 8;

/// The audio configuration all modules of a patch share.
#[derive(Clone, Copy, Debug, PartialEq, Eq, Structural)]
pub struct AudioConfig {
    pub sample_rate: u32,
    pub buffer_size: usize,
    pub channels: u8,
}

impl AudioConfig {
    /// The ranges a configuration has to keep: a sample rate from 1 to
    /// 96000, at least one sample per block, and 1 to 8 channels.
    pub open spec fn valid(&self) -> bool {
        &&& 1 <= self.sample_rate <= MAX_SAMPLE_RATE
        &&& 1 <= self.buffer_size
        &&& 1 <= self.channels <= MAX_CHANNELS
    }

    /// Whether the configuration keeps its ranges.
    pub fn is_valid(&self) -> (ok: bool)
        ensures
            ok == self.valid(),
    {
        1 <= self.sample_rate && self.sample_rate <= MAX_SAMPLE_RATE && 1 <= self.buffer_size && 1
            <= self.channels && self.channels <= MAX_CHANNELS
    }
}

/// Whether a bit pattern stands for a number greater than zero: the sign bit
/// is clear, the pattern is not zero, and it is no NaN.
pub open spec fn above_threshold(val: ControlVoltage) -> bool {
    0 < val <= POSITIVE_INFINITY
}

/// Detects rising edges: a sample above zero that follows one at or below.
#[derive(Clone, Copy, Debug, PartialEq, Eq, Structural)]
pub struct TransitionDetector {
    pub last: bool,
}

impl TransitionDetector {
    /// A detector that takes the signal to have been high before its first
    /// sample, so that a signal that is high from the start gives no edge.
    pub fn new() -> (detector: Self)
        ensures
            detector.last,
    {
        Self { last: true }
    }

    /// Whether `val` is greater than zero.
    pub fn is_above_threshold(val: &ControlVoltage) -> (above: bool)
        ensures
            above == above_threshold(*val),
    {
        0 < *val && *val <= POSITIVE_INFINITY
    }

    /// Takes the next sample. Returns true if it is above zero and the one
    /// before it was not; remembers whether it is above zero.
    pub fn is_transition(&mut self, val: &ControlVoltage) -> (edge: bool)
        ensures
            edge == (above_threshold(*val) && !old(self).last),
            final(self).last == above_threshold(*val),
    {
        let above = Self::is_above_threshold(val);
        let edge = above && !self.last;
        self.last = above;
        edge
    }
}

} // verus!
