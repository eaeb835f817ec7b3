//! The closed set of module kinds, and the catalog that makes them.

use vstd::prelude::*;

use crate::synth::adsr::ADSRModule;
use crate::synth::filter::MoogFilterModule;
use crate::synth::freeverb::FreeverbModule;
use crate::synth::math::MathModule;
use crate::synth::math::MathOperation;
use crate::synth::mixer::MonoMixerModule;
use crate::synth::module::unconnected;
use crate::synth::module::SynthModule;
use crate::synth::oscillator::NoiseModule;
use crate::synth::oscillator::OscillatorModule;
use crate::synth::output::OutputModule;
use crate::synth::patchbay::Patchbay;
use crate::synth::sample::SampleModule;
use crate::synth::sequencer::GridSequencerModule;
use crate::synth::sequencer::PatternSequencerModule;
use crate::synth::vca::VCAModule;
use crate::synth::AudioConfig;

verus! {

/// A module of any kind.
#[derive(Debug)]
pub enum SynthModuleType {
    OutputModule(OutputModule),
    OscillatorModule(OscillatorModule),
    GridSequencerModule(GridSequencerModule),
    PatternSequencerModule(PatternSequencerModule),
    ADSRModule(ADSRModule),
    VCAModule(VCAModule),
    MoogFilterModule(MoogFilterModule),
    MonoMixerModule(MonoMixerModule),
    SampleModule(SampleModule),
    MathModule(MathModule),
    NoiseModule(NoiseModule),
    FreeverbModule(FreeverbModule),
}

impl SynthModuleType {
    /// The two modules are of the same kind.
    pub open spec fn same_kind(&self, other: &Self) -> bool {
        match (self, other) {
            (SynthModuleType::OutputModule(_), SynthModuleType::OutputModule(_)) => true,
            (SynthModuleType::OscillatorModule(_), SynthModuleType::OscillatorModule(_)) => true,
            (SynthModuleType::GridSequencerModule(_), SynthModuleType::GridSequencerModule(_)) => true,
            (SynthModuleType::PatternSequencerModule(_), SynthModuleType::PatternSequencerModule(_)) => true,
            (SynthModuleType::ADSRModule(_), SynthModuleType::ADSRModule(_)) => true,
            (SynthModuleType::VCAModule(_), SynthModuleType::VCAModule(_)) => true,
            (SynthModuleType::MoogFilterModule(_), SynthModuleType::MoogFilterModule(_)) => true,
            (SynthModuleType::MonoMixerModule(_), SynthModuleType::MonoMixerModule(_)) => true,
            (SynthModuleType::SampleModule(_), SynthModuleType::SampleModule(_)) => true,
            (SynthModuleType::MathModule(_), SynthModuleType::MathModule(_)) => true,
            (SynthModuleType::NoiseModule(_), SynthModuleType::NoiseModule(_)) => true,
            (SynthModuleType::FreeverbModule(_), SynthModuleType::FreeverbModule(_)) => true,
            _ => false,
        }
    }
}

impl SynthModule for SynthModuleType {
    open spec fn bay(&self) -> Patchbay {
        match self {
            SynthModuleType::OutputModule(m) => m.bay(),
            SynthModuleType::OscillatorModule(m) => m.bay(),
            SynthModuleType::GridSequencerModule(m) => m.bay(),
            SynthModuleType::PatternSequencerModule(m) => m.bay(),
            SynthModuleType::ADSRModule(m) => m.bay(),
            SynthModuleType::VCAModule(m) => m.bay(),
            SynthModuleType::MoogFilterModule(m) => m.bay(),
            SynthModuleType::MonoMixerModule(m) => m.bay(),
            SynthModuleType::SampleModule(m) => m.bay(),
            SynthModuleType::MathModule(m) => m.bay(),
            SynthModuleType::NoiseModule(m) => m.bay(),
            SynthModuleType::FreeverbModule(m) => m.bay(),
        }
    }

    open spec fn wf(&self) -> bool {
        match self {
            SynthModuleType::OutputModule(m) => m.wf(),
            SynthModuleType::OscillatorModule(m) => m.wf(),
            SynthModuleType::GridSequencerModule(m) => m.wf(),
            SynthModuleType::PatternSequencerModule(m) => m.wf(),
            SynthModuleType::ADSRModule(m) => m.wf(),
            SynthModuleType::VCAModule(m) => m.wf(),
            SynthModuleType::MoogFilterModule(m) => m.wf(),
            SynthModuleType::MonoMixerModule(m) => m.wf(),
            SynthModuleType::SampleModule(m) => m.wf(),
            SynthModuleType::MathModule(m) => m.wf(),
            SynthModuleType::NoiseModule(m) => m.wf(),
            SynthModuleType::FreeverbModule(m) => m.wf(),
        }
    }

    open spec fn name(&self) -> Seq<char> {
        match self {
            SynthModuleType::OutputModule(m) => m.name(),
            SynthModuleType::OscillatorModule(m) => m.name(),
            SynthModuleType::GridSequencerModule(m) => m.name(),
            SynthModuleType::PatternSequencerModule(m) => m.name(),
            SynthModuleType::ADSRModule(m) => m.name(),
            SynthModuleType::VCAModule(m) => m.name(),
            SynthModuleType::MoogFilterModule(m) => m.name(),
            SynthModuleType::MonoMixerModule(m) => m.name(),
            SynthModuleType::SampleModule(m) => m.name(),
            SynthModuleType::MathModule(m) => m.name(),
            SynthModuleType::NoiseModule(m) => m.name(),
            SynthModuleType::FreeverbModule(m) => m.name(),
        }
    }

    open spec fn input_label(&self, input_idx: int) -> Option<Seq<char>> {
        match self {
            SynthModuleType::OutputModule(m) => m.input_label(input_idx),
            SynthModuleType::OscillatorModule(m) => m.input_label(input_idx),
            SynthModuleType::GridSequencerModule(m) => m.input_label(input_idx),
            SynthModuleType::PatternSequencerModule(m) => m.input_label(input_idx),
            SynthModuleType::ADSRModule(m) => m.input_label(input_idx),
            SynthModuleType::VCAModule(m) => m.input_label(input_idx),
            SynthModuleType::MoogFilterModule(m) => m.input_label(input_idx),
            SynthModuleType::MonoMixerModule(m) => m.input_label(input_idx),
            SynthModuleType::SampleModule(m) => m.input_label(input_idx),
            SynthModuleType::MathModule(m) => m.input_label(input_idx),
            SynthModuleType::NoiseModule(m) => m.input_label(input_idx),
            SynthModuleType::FreeverbModule(m) => m.input_label(input_idx),
        }
    }

    open spec fn output_label(&self, output_idx: int) -> Option<Seq<char>> {
        match self {
            SynthModuleType::OutputModule(m) => m.output_label(output_idx),
            SynthModuleType::OscillatorModule(m) => m.output_label(output_idx),
            SynthModuleType::GridSequencerModule(m) => m.output_label(output_idx),
            SynthModuleType::PatternSequencerModule(m) => m.output_label(output_idx),
            SynthModuleType::ADSRModule(m) => m.output_label(output_idx),
            SynthModuleType::VCAModule(m) => m.output_label(output_idx),
            SynthModuleType::MoogFilterModule(m) => m.output_label(output_idx),
            SynthModuleType::MonoMixerModule(m) => m.output_label(output_idx),
            SynthModuleType::SampleModule(m) => m.output_label(output_idx),
            SynthModuleType::MathModule(m) => m.output_label(output_idx),
            SynthModuleType::NoiseModule(m) => m.output_label(output_idx),
            SynthModuleType::FreeverbModule(m) => m.output_label(output_idx),
        }
    }

    open spec fn dirty(&self) -> bool {
        match self {
            SynthModuleType::OutputModule(m) => m.dirty(),
            SynthModuleType::OscillatorModule(m) => m.dirty(),
            SynthModuleType::GridSequencerModule(m) => m.dirty(),
            SynthModuleType::PatternSequencerModule(m) => m.dirty(),
            SynthModuleType::ADSRModule(m) => m.dirty(),
            SynthModuleType::VCAModule(m) => m.dirty(),
            SynthModuleType::MoogFilterModule(m) => m.dirty(),
            SynthModuleType::MonoMixerModule(m) => m.dirty(),
            SynthModuleType::SampleModule(m) => m.dirty(),
            SynthModuleType::MathModule(m) => m.dirty(),
            SynthModuleType::NoiseModule(m) => m.dirty(),
            SynthModuleType::FreeverbModule(m) => m.dirty(),
        }
    }

    open spec fn same_settings(&self, other: &Self) -> bool {
        match (self, other) {
            (SynthModuleType::OutputModule(a), SynthModuleType::OutputModule(b)) => a.same_settings(b),
            (SynthModuleType::OscillatorModule(a), SynthModuleType::OscillatorModule(b)) => a.same_settings(b),
            (SynthModuleType::GridSequencerModule(a), SynthModuleType::GridSequencerModule(b)) => a.same_settings(b),
            (SynthModuleType::PatternSequencerModule(a), SynthModuleType::PatternSequencerModule(b)) => a.same_settings(b),
            (SynthModuleType::ADSRModule(a), SynthModuleType::ADSRModule(b)) => a.same_settings(b),
            (SynthModuleType::VCAModule(a), SynthModuleType::VCAModule(b)) => a.same_settings(b),
            (SynthModuleType::MoogFilterModule(a), SynthModuleType::MoogFilterModule(b)) => a.same_settings(b),
            (SynthModuleType::MonoMixerModule(a), SynthModuleType::MonoMixerModule(b)) => a.same_settings(b),
            (SynthModuleType::SampleModule(a), SynthModuleType::SampleModule(b)) => a.same_settings(b),
            (SynthModuleType::MathModule(a), SynthModuleType::MathModule(b)) => a.same_settings(b),
            (SynthModuleType::NoiseModule(a), SynthModuleType::NoiseModule(b)) => a.same_settings(b),
            (SynthModuleType::FreeverbModule(a), SynthModuleType::FreeverbModule(b)) => a.same_settings(b),
            _ => false,
        }
    }

    open spec fn fits(&self, audio_config: AudioConfig) -> bool {
        match self {
            SynthModuleType::OutputModule(m) => m.fits(audio_config),
            SynthModuleType::OscillatorModule(m) => m.fits(audio_config),
            SynthModuleType::GridSequencerModule(m) => m.fits(audio_config),
            SynthModuleType::PatternSequencerModule(m) => m.fits(audio_config),
            SynthModuleType::ADSRModule(m) => m.fits(audio_config),
            SynthModuleType::VCAModule(m) => m.fits(audio_config),
            SynthModuleType::MoogFilterModule(m) => m.fits(audio_config),
            SynthModuleType::MonoMixerModule(m) => m.fits(audio_config),
            SynthModuleType::SampleModule(m) => m.fits(audio_config),
            SynthModuleType::MathModule(m) => m.fits(audio_config),
            SynthModuleType::NoiseModule(m) => m.fits(audio_config),
            SynthModuleType::FreeverbModule(m) => m.fits(audio_config),
        }
    }

    proof fn lemma_fits(&self, other: &Self, audio_config: AudioConfig) {
        match (self, other) {
            (SynthModuleType::OutputModule(a), SynthModuleType::OutputModule(b)) => {
                a.lemma_fits(b, audio_config);
                assert(other.same_settings(self) == b.same_settings(a));
                assert(self.bay() == a.bay());
                assert(other.bay() == b.bay());
                assert(self.fits(audio_config) == a.fits(audio_config));
                assert(other.fits(audio_config) == b.fits(audio_config));
            },
            (SynthModuleType::OscillatorModule(a), SynthModuleType::OscillatorModule(b)) => {
                a.lemma_fits(b, audio_config);
                assert(other.same_settings(self) == b.same_settings(a));
                assert(self.bay() == a.bay());
                assert(other.bay() == b.bay());
                assert(self.fits(audio_config) == a.fits(audio_config));
                assert(other.fits(audio_config) == b.fits(audio_config));
            },
            (SynthModuleType::GridSequencerModule(a), SynthModuleType::GridSequencerModule(b)) => {
                a.lemma_fits(b, audio_config);
                assert(other.same_settings(self) == b.same_settings(a));
                assert(self.bay() == a.bay());
                assert(other.bay() == b.bay());
                assert(self.fits(audio_config) == a.fits(audio_config));
                assert(other.fits(audio_config) == b.fits(audio_config));
            },
            (SynthModuleType::PatternSequencerModule(a), SynthModuleType::PatternSequencerModule(b)) => {
                a.lemma_fits(b, audio_config);
                assert(other.same_settings(self) == b.same_settings(a));
                assert(self.bay() == a.bay());
                assert(other.bay() == b.bay());
                assert(self.fits(audio_config) == a.fits(audio_config));
                assert(other.fits(audio_config) == b.fits(audio_config));
            },
            (SynthModuleType::ADSRModule(a), SynthModuleType::ADSRModule(b)) => {
                a.lemma_fits(b, audio_config);
                assert(other.same_settings(self) == b.same_settings(a));
                assert(self.bay() == a.bay());
                assert(other.bay() == b.bay());
                assert(self.fits(audio_config) == a.fits(audio_config));
                assert(other.fits(audio_config) == b.fits(audio_config));
            },
            (SynthModuleType::VCAModule(a), SynthModuleType::VCAModule(b)) => {
                a.lemma_fits(b, audio_config);
                assert(other.same_settings(self) == b.same_settings(a));
                assert(self.bay() == a.bay());
                assert(other.bay() == b.bay());
                assert(self.fits(audio_config) == a.fits(audio_config));
                assert(other.fits(audio_config) == b.fits(audio_config));
            },
            (SynthModuleType::MoogFilterModule(a), SynthModuleType::MoogFilterModule(b)) => {
                a.lemma_fits(b, audio_config);
                assert(other.same_settings(self) == b.same_settings(a));
                assert(self.bay() == a.bay());
                assert(other.bay() == b.bay());
                assert(self.fits(audio_config) == a.fits(audio_config));
                assert(other.fits(audio_config) == b.fits(audio_config));
            },
            (SynthModuleType::MonoMixerModule(a), SynthModuleType::MonoMixerModule(b)) => {
                a.lemma_fits(b, audio_config);
                assert(other.same_settings(self) == b.same_settings(a));
                assert(self.bay() == a.bay());
                assert(other.bay() == b.bay());
                assert(self.fits(audio_config) == a.fits(audio_config));
                assert(other.fits(audio_config) == b.fits(audio_config));
            },
            (SynthModuleType::SampleModule(a), SynthModuleType::SampleModule(b)) => {
                a.lemma_fits(b, audio_config);
                assert(other.same_settings(self) == b.same_settings(a));
                assert(self.bay() == a.bay());
                assert(other.bay() == b.bay());
                assert(self.fits(audio_config) == a.fits(audio_config));
                assert(other.fits(audio_config) == b.fits(audio_config));
            },
            (SynthModuleType::MathModule(a), SynthModuleType::MathModule(b)) => {
                a.lemma_fits(b, audio_config);
                assert(other.same_settings(self) == b.same_settings(a));
                assert(self.bay() == a.bay());
                assert(other.bay() == b.bay());
                assert(self.fits(audio_config) == a.fits(audio_config));
                assert(other.fits(audio_config) == b.fits(audio_config));
            },
            (SynthModuleType::NoiseModule(a), SynthModuleType::NoiseModule(b)) => {
                a.lemma_fits(b, audio_config);
                assert(other.same_settings(self) == b.same_settings(a));
                assert(self.bay() == a.bay());
                assert(other.bay() == b.bay());
                assert(self.fits(audio_config) == a.fits(audio_config));
                assert(other.fits(audio_config) == b.fits(audio_config));
            },
            (SynthModuleType::FreeverbModule(a), SynthModuleType::FreeverbModule(b)) => {
                a.lemma_fits(b, audio_config);
                assert(other.same_settings(self) == b.same_settings(a));
                assert(self.bay() == a.bay());
                assert(other.bay() == b.bay());
                assert(self.fits(audio_config) == a.fits(audio_config));
                assert(other.fits(audio_config) == b.fits(audio_config));
            },
            _ => {
                assert(!other.same_settings(self));
            },
        }
    }

    proof fn lemma_settings(&self, other: &Self) {
        match self {
            SynthModuleType::OutputModule(a) => {
                a.lemma_settings(a);
                assert(self.same_settings(self) == a.same_settings(a));
                assert(self.wf() == a.wf());
                assert(self.bay() == a.bay());
            },
            SynthModuleType::OscillatorModule(a) => {
                a.lemma_settings(a);
                assert(self.same_settings(self) == a.same_settings(a));
                assert(self.wf() == a.wf());
                assert(self.bay() == a.bay());
            },
            SynthModuleType::GridSequencerModule(a) => {
                a.lemma_settings(a);
                assert(self.same_settings(self) == a.same_settings(a));
                assert(self.wf() == a.wf());
                assert(self.bay() == a.bay());
            },
            SynthModuleType::PatternSequencerModule(a) => {
                a.lemma_settings(a);
                assert(self.same_settings(self) == a.same_settings(a));
                assert(self.wf() == a.wf());
                assert(self.bay() == a.bay());
            },
            SynthModuleType::ADSRModule(a) => {
                a.lemma_settings(a);
                assert(self.same_settings(self) == a.same_settings(a));
                assert(self.wf() == a.wf());
                assert(self.bay() == a.bay());
            },
            SynthModuleType::VCAModule(a) => {
                a.lemma_settings(a);
                assert(self.same_settings(self) == a.same_settings(a));
                assert(self.wf() == a.wf());
                assert(self.bay() == a.bay());
            },
            SynthModuleType::MoogFilterModule(a) => {
                a.lemma_settings(a);
                assert(self.same_settings(self) == a.same_settings(a));
                assert(self.wf() == a.wf());
                assert(self.bay() == a.bay());
            },
            SynthModuleType::MonoMixerModule(a) => {
                a.lemma_settings(a);
                assert(self.same_settings(self) == a.same_settings(a));
                assert(self.wf() == a.wf());
                assert(self.bay() == a.bay());
            },
            SynthModuleType::SampleModule(a) => {
                a.lemma_settings(a);
                assert(self.same_settings(self) == a.same_settings(a));
                assert(self.wf() == a.wf());
                assert(self.bay() == a.bay());
            },
            SynthModuleType::MathModule(a) => {
                a.lemma_settings(a);
                assert(self.same_settings(self) == a.same_settings(a));
                assert(self.wf() == a.wf());
                assert(self.bay() == a.bay());
            },
            SynthModuleType::NoiseModule(a) => {
                a.lemma_settings(a);
                assert(self.same_settings(self) == a.same_settings(a));
                assert(self.wf() == a.wf());
                assert(self.bay() == a.bay());
            },
            SynthModuleType::FreeverbModule(a) => {
                a.lemma_settings(a);
                assert(self.same_settings(self) == a.same_settings(a));
                assert(self.wf() == a.wf());
                assert(self.bay() == a.bay());
            },
        }
        match (self, other) {
            (SynthModuleType::OutputModule(a), SynthModuleType::OutputModule(b)) => {
                a.lemma_settings(b);
                assert(other.same_settings(self) == b.same_settings(a));
                assert(self.wf() == a.wf());
                assert(other.wf() == b.wf());
                assert(self.bay() == a.bay());
                assert(other.bay() == b.bay());
                assert(self.name() == a.name());
                assert(other.name() == b.name());
                assert(self.dirty() == a.dirty());
                assert(other.dirty() == b.dirty());
                assert(forall|i: int| self.input_label(i) == a.input_label(i));
                assert(forall|i: int| other.input_label(i) == b.input_label(i));
                assert(forall|i: int| self.output_label(i) == a.output_label(i));
                assert(forall|i: int| other.output_label(i) == b.output_label(i));
            },
            (SynthModuleType::OscillatorModule(a), SynthModuleType::OscillatorModule(b)) => {
                a.lemma_settings(b);
                assert(other.same_settings(self) == b.same_settings(a));
                assert(self.wf() == a.wf());
                assert(other.wf() == b.wf());
                assert(self.bay() == a.bay());
                assert(other.bay() == b.bay());
                assert(self.name() == a.name());
                assert(other.name() == b.name());
                assert(self.dirty() == a.dirty());
                assert(other.dirty() == b.dirty());
                assert(forall|i: int| self.input_label(i) == a.input_label(i));
                assert(forall|i: int| other.input_label(i) == b.input_label(i));
                assert(forall|i: int| self.output_label(i) == a.output_label(i));
                assert(forall|i: int| other.output_label(i) == b.output_label(i));
            },
            (SynthModuleType::GridSequencerModule(a), SynthModuleType::GridSequencerModule(b)) => {
                a.lemma_settings(b);
                assert(other.same_settings(self) == b.same_settings(a));
                assert(self.wf() == a.wf());
                assert(other.wf() == b.wf());
                assert(self.bay() == a.bay());
                assert(other.bay() == b.bay());
                assert(self.name() == a.name());
                assert(other.name() == b.name());
                assert(self.dirty() == a.dirty());
                assert(other.dirty() == b.dirty());
                assert(forall|i: int| self.input_label(i) == a.input_label(i));
                assert(forall|i: int| other.input_label(i) == b.input_label(i));
                assert(forall|i: int| self.output_label(i) == a.output_label(i));
                assert(forall|i: int| other.output_label(i) == b.output_label(i));
            },
            (SynthModuleType::PatternSequencerModule(a), SynthModuleType::PatternSequencerModule(b)) => {
                a.lemma_settings(b);
                assert(other.same_settings(self) == b.same_settings(a));
                assert(self.wf() == a.wf());
                assert(other.wf() == b.wf());
                assert(self.bay() == a.bay());
                assert(other.bay() == b.bay());
                assert(self.name() == a.name());
                assert(other.name() == b.name());
                assert(self.dirty() == a.dirty());
                assert(other.dirty() == b.dirty());
                assert(forall|i: int| self.input_label(i) == a.input_label(i));
                assert(forall|i: int| other.input_label(i) == b.input_label(i));
                assert(forall|i: int| self.output_label(i) == a.output_label(i));
                assert(forall|i: int| other.output_label(i) == b.output_label(i));
            },
            (SynthModuleType::ADSRModule(a), SynthModuleType::ADSRModule(b)) => {
                a.lemma_settings(b);
                assert(other.same_settings(self) == b.same_settings(a));
                assert(self.wf() == a.wf());
                assert(other.wf() == b.wf());
                assert(self.bay() == a.bay());
                assert(other.bay() == b.bay());
                assert(self.name() == a.name());
                assert(other.name() == b.name());
                assert(self.dirty() == a.dirty());
                assert(other.dirty() == b.dirty());
                assert(forall|i: int| self.input_label(i) == a.input_label(i));
                assert(forall|i: int| other.input_label(i) == b.input_label(i));
                assert(forall|i: int| self.output_label(i) == a.output_label(i));
                assert(forall|i: int| other.output_label(i) == b.output_label(i));
            },
            (SynthModuleType::VCAModule(a), SynthModuleType::VCAModule(b)) => {
                a.lemma_settings(b);
                assert(other.same_settings(self) == b.same_settings(a));
                assert(self.wf() == a.wf());
                assert(other.wf() == b.wf());
                assert(self.bay() == a.bay());
                assert(other.bay() == b.bay());
                assert(self.name() == a.name());
                assert(other.name() == b.name());
                assert(self.dirty() == a.dirty());
                assert(other.dirty() == b.dirty());
                assert(forall|i: int| self.input_label(i) == a.input_label(i));
                assert(forall|i: int| other.input_label(i) == b.input_label(i));
                assert(forall|i: int| self.output_label(i) == a.output_label(i));
                assert(forall|i: int| other.output_label(i) == b.output_label(i));
            },
            (SynthModuleType::MoogFilterModule(a), SynthModuleType::MoogFilterModule(b)) => {
                a.lemma_settings(b);
                assert(other.same_settings(self) == b.same_settings(a));
                assert(self.wf() == a.wf());
                assert(other.wf() == b.wf());
                assert(self.bay() == a.bay());
                assert(other.bay() == b.bay());
                assert(self.name() == a.name());
                assert(other.name() == b.name());
                assert(self.dirty() == a.dirty());
                assert(other.dirty() == b.dirty());
                assert(forall|i: int| self.input_label(i) == a.input_label(i));
                assert(forall|i: int| other.input_label(i) == b.input_label(i));
                assert(forall|i: int| self.output_label(i) == a.output_label(i));
                assert(forall|i: int| other.output_label(i) == b.output_label(i));
            },
            (SynthModuleType::MonoMixerModule(a), SynthModuleType::MonoMixerModule(b)) => {
                a.lemma_settings(b);
                assert(other.same_settings(self) == b.same_settings(a));
                assert(self.wf() == a.wf());
                assert(other.wf() == b.wf());
                assert(self.bay() == a.bay());
                assert(other.bay() == b.bay());
                assert(self.name() == a.name());
                assert(other.name() == b.name());
                assert(self.dirty() == a.dirty());
                assert(other.dirty() == b.dirty());
                assert(forall|i: int| self.input_label(i) == a.input_label(i));
                assert(forall|i: int| other.input_label(i) == b.input_label(i));
                assert(forall|i: int| self.output_label(i) == a.output_label(i));
                assert(forall|i: int| other.output_label(i) == b.output_label(i));
            },
            (SynthModuleType::SampleModule(a), SynthModuleType::SampleModule(b)) => {
                a.lemma_settings(b);
                assert(other.same_settings(self) == b.same_settings(a));
                assert(self.wf() == a.wf());
                assert(other.wf() == b.wf());
                assert(self.bay() == a.bay());
                assert(other.bay() == b.bay());
                assert(self.name() == a.name());
                assert(other.name() == b.name());
                assert(self.dirty() == a.dirty());
                assert(other.dirty() == b.dirty());
                assert(forall|i: int| self.input_label(i) == a.input_label(i));
                assert(forall|i: int| other.input_label(i) == b.input_label(i));
                assert(forall|i: int| self.output_label(i) == a.output_label(i));
                assert(forall|i: int| other.output_label(i) == b.output_label(i));
            },
            (SynthModuleType::MathModule(a), SynthModuleType::MathModule(b)) => {
                a.lemma_settings(b);
                assert(other.same_settings(self) == b.same_settings(a));
                assert(self.wf() == a.wf());
                assert(other.wf() == b.wf());
                assert(self.bay() == a.bay());
                assert(other.bay() == b.bay());
                assert(self.name() == a.name());
                assert(other.name() == b.name());
                assert(self.dirty() == a.dirty());
                assert(other.dirty() == b.dirty());
                assert(forall|i: int| self.input_label(i) == a.input_label(i));
                assert(forall|i: int| other.input_label(i) == b.input_label(i));
                assert(forall|i: int| self.output_label(i) == a.output_label(i));
                assert(forall|i: int| other.output_label(i) == b.output_label(i));
            },
            (SynthModuleType::NoiseModule(a), SynthModuleType::NoiseModule(b)) => {
                a.lemma_settings(b);
                assert(other.same_settings(self) == b.same_settings(a));
                assert(self.wf() == a.wf());
                assert(other.wf() == b.wf());
                assert(self.bay() == a.bay());
                assert(other.bay() == b.bay());
                assert(self.name() == a.name());
                assert(other.name() == b.name());
                assert(self.dirty() == a.dirty());
                assert(other.dirty() == b.dirty());
                assert(forall|i: int| self.input_label(i) == a.input_label(i));
                assert(forall|i: int| other.input_label(i) == b.input_label(i));
                assert(forall|i: int| self.output_label(i) == a.output_label(i));
                assert(forall|i: int| other.output_label(i) == b.output_label(i));
            },
            (SynthModuleType::FreeverbModule(a), SynthModuleType::FreeverbModule(b)) => {
                a.lemma_settings(b);
                assert(other.same_settings(self) == b.same_settings(a));
                assert(self.wf() == a.wf());
                assert(other.wf() == b.wf());
                assert(self.bay() == a.bay());
                assert(other.bay() == b.bay());
                assert(self.name() == a.name());
                assert(other.name() == b.name());
                assert(self.dirty() == a.dirty());
                assert(other.dirty() == b.dirty());
                assert(forall|i: int| self.input_label(i) == a.input_label(i));
                assert(forall|i: int| other.input_label(i) == b.input_label(i));
                assert(forall|i: int| self.output_label(i) == a.output_label(i));
                assert(forall|i: int| other.output_label(i) == b.output_label(i));
            },
            _ => {
                assert(!other.same_settings(self));
            },
        }
    }

    proof fn lemma_settings_chain(&self, second: &Self, third: &Self) {
        match (self, second) {
            (SynthModuleType::OutputModule(a), SynthModuleType::OutputModule(b)) => {
                a.lemma_settings_chain(b, b);
                assert(self.same_settings(second) == a.same_settings(b));
                assert(second.same_settings(self) == b.same_settings(a));
            },
            (SynthModuleType::OscillatorModule(a), SynthModuleType::OscillatorModule(b)) => {
                a.lemma_settings_chain(b, b);
                assert(self.same_settings(second) == a.same_settings(b));
                assert(second.same_settings(self) == b.same_settings(a));
            },
            (SynthModuleType::GridSequencerModule(a), SynthModuleType::GridSequencerModule(b)) => {
                a.lemma_settings_chain(b, b);
                assert(self.same_settings(second) == a.same_settings(b));
                assert(second.same_settings(self) == b.same_settings(a));
            },
            (SynthModuleType::PatternSequencerModule(a), SynthModuleType::PatternSequencerModule(b)) => {
                a.lemma_settings_chain(b, b);
                assert(self.same_settings(second) == a.same_settings(b));
                assert(second.same_settings(self) == b.same_settings(a));
            },
            (SynthModuleType::ADSRModule(a), SynthModuleType::ADSRModule(b)) => {
                a.lemma_settings_chain(b, b);
                assert(self.same_settings(second) == a.same_settings(b));
                assert(second.same_settings(self) == b.same_settings(a));
            },
            (SynthModuleType::VCAModule(a), SynthModuleType::VCAModule(b)) => {
                a.lemma_settings_chain(b, b);
                assert(self.same_settings(second) == a.same_settings(b));
                assert(second.same_settings(self) == b.same_settings(a));
            },
            (SynthModuleType::MoogFilterModule(a), SynthModuleType::MoogFilterModule(b)) => {
                a.lemma_settings_chain(b, b);
                assert(self.same_settings(second) == a.same_settings(b));
                assert(second.same_settings(self) == b.same_settings(a));
            },
            (SynthModuleType::MonoMixerModule(a), SynthModuleType::MonoMixerModule(b)) => {
                a.lemma_settings_chain(b, b);
                assert(self.same_settings(second) == a.same_settings(b));
                assert(second.same_settings(self) == b.same_settings(a));
            },
            (SynthModuleType::SampleModule(a), SynthModuleType::SampleModule(b)) => {
                a.lemma_settings_chain(b, b);
                assert(self.same_settings(second) == a.same_settings(b));
                assert(second.same_settings(self) == b.same_settings(a));
            },
            (SynthModuleType::MathModule(a), SynthModuleType::MathModule(b)) => {
                a.lemma_settings_chain(b, b);
                assert(self.same_settings(second) == a.same_settings(b));
                assert(second.same_settings(self) == b.same_settings(a));
            },
            (SynthModuleType::NoiseModule(a), SynthModuleType::NoiseModule(b)) => {
                a.lemma_settings_chain(b, b);
                assert(self.same_settings(second) == a.same_settings(b));
                assert(second.same_settings(self) == b.same_settings(a));
            },
            (SynthModuleType::FreeverbModule(a), SynthModuleType::FreeverbModule(b)) => {
                a.lemma_settings_chain(b, b);
                assert(self.same_settings(second) == a.same_settings(b));
                assert(second.same_settings(self) == b.same_settings(a));
            },
            _ => {
                assert(!self.same_settings(second));
            },
        }
        match (self, second, third) {
            (SynthModuleType::OutputModule(a), SynthModuleType::OutputModule(b), SynthModuleType::OutputModule(c)) => {
                a.lemma_settings_chain(b, c);
                assert(self.same_settings(second) == a.same_settings(b));
                assert(second.same_settings(third) == b.same_settings(c));
                assert(self.same_settings(third) == a.same_settings(c));
            },
            (SynthModuleType::OscillatorModule(a), SynthModuleType::OscillatorModule(b), SynthModuleType::OscillatorModule(c)) => {
                a.lemma_settings_chain(b, c);
                assert(self.same_settings(second) == a.same_settings(b));
                assert(second.same_settings(third) == b.same_settings(c));
                assert(self.same_settings(third) == a.same_settings(c));
            },
            (SynthModuleType::GridSequencerModule(a), SynthModuleType::GridSequencerModule(b), SynthModuleType::GridSequencerModule(c)) => {
                a.lemma_settings_chain(b, c);
                assert(self.same_settings(second) == a.same_settings(b));
                assert(second.same_settings(third) == b.same_settings(c));
                assert(self.same_settings(third) == a.same_settings(c));
            },
            (SynthModuleType::PatternSequencerModule(a), SynthModuleType::PatternSequencerModule(b), SynthModuleType::PatternSequencerModule(c)) => {
                a.lemma_settings_chain(b, c);
                assert(self.same_settings(second) == a.same_settings(b));
                assert(second.same_settings(third) == b.same_settings(c));
                assert(self.same_settings(third) == a.same_settings(c));
            },
            (SynthModuleType::ADSRModule(a), SynthModuleType::ADSRModule(b), SynthModuleType::ADSRModule(c)) => {
                a.lemma_settings_chain(b, c);
                assert(self.same_settings(second) == a.same_settings(b));
                assert(second.same_settings(third) == b.same_settings(c));
                assert(self.same_settings(third) == a.same_settings(c));
            },
            (SynthModuleType::VCAModule(a), SynthModuleType::VCAModule(b), SynthModuleType::VCAModule(c)) => {
                a.lemma_settings_chain(b, c);
                assert(self.same_settings(second) == a.same_settings(b));
                assert(second.same_settings(third) == b.same_settings(c));
                assert(self.same_settings(third) == a.same_settings(c));
            },
            (SynthModuleType::MoogFilterModule(a), SynthModuleType::MoogFilterModule(b), SynthModuleType::MoogFilterModule(c)) => {
                a.lemma_settings_chain(b, c);
                assert(self.same_settings(second) == a.same_settings(b));
                assert(second.same_settings(third) == b.same_settings(c));
                assert(self.same_settings(third) == a.same_settings(c));
            },
            (SynthModuleType::MonoMixerModule(a), SynthModuleType::MonoMixerModule(b), SynthModuleType::MonoMixerModule(c)) => {
                a.lemma_settings_chain(b, c);
                assert(self.same_settings(second) == a.same_settings(b));
                assert(second.same_settings(third) == b.same_settings(c));
                assert(self.same_settings(third) == a.same_settings(c));
            },
            (SynthModuleType::SampleModule(a), SynthModuleType::SampleModule(b), SynthModuleType::SampleModule(c)) => {
                a.lemma_settings_chain(b, c);
                assert(self.same_settings(second) == a.same_settings(b));
                assert(second.same_settings(third) == b.same_settings(c));
                assert(self.same_settings(third) == a.same_settings(c));
            },
            (SynthModuleType::MathModule(a), SynthModuleType::MathModule(b), SynthModuleType::MathModule(c)) => {
                a.lemma_settings_chain(b, c);
                assert(self.same_settings(second) == a.same_settings(b));
                assert(second.same_settings(third) == b.same_settings(c));
                assert(self.same_settings(third) == a.same_settings(c));
            },
            (SynthModuleType::NoiseModule(a), SynthModuleType::NoiseModule(b), SynthModuleType::NoiseModule(c)) => {
                a.lemma_settings_chain(b, c);
                assert(self.same_settings(second) == a.same_settings(b));
                assert(second.same_settings(third) == b.same_settings(c));
                assert(self.same_settings(third) == a.same_settings(c));
            },
            (SynthModuleType::FreeverbModule(a), SynthModuleType::FreeverbModule(b), SynthModuleType::FreeverbModule(c)) => {
                a.lemma_settings_chain(b, c);
                assert(self.same_settings(second) == a.same_settings(b));
                assert(second.same_settings(third) == b.same_settings(c));
                assert(self.same_settings(third) == a.same_settings(c));
            },
            _ => {
                assert(!(self.same_settings(second) && second.same_settings(third)));
            },
        }
    }

    fn deep_clone(&self) -> (copy: Self) {
        match self {
            SynthModuleType::OutputModule(m) => SynthModuleType::OutputModule(m.deep_clone()),
            SynthModuleType::OscillatorModule(m) => SynthModuleType::OscillatorModule(m.deep_clone()),
            SynthModuleType::GridSequencerModule(m) => SynthModuleType::GridSequencerModule(m.deep_clone()),
            SynthModuleType::PatternSequencerModule(m) => SynthModuleType::PatternSequencerModule(m.deep_clone()),
            SynthModuleType::ADSRModule(m) => SynthModuleType::ADSRModule(m.deep_clone()),
            SynthModuleType::VCAModule(m) => SynthModuleType::VCAModule(m.deep_clone()),
            SynthModuleType::MoogFilterModule(m) => SynthModuleType::MoogFilterModule(m.deep_clone()),
            SynthModuleType::MonoMixerModule(m) => SynthModuleType::MonoMixerModule(m.deep_clone()),
            SynthModuleType::SampleModule(m) => SynthModuleType::SampleModule(m.deep_clone()),
            SynthModuleType::MathModule(m) => SynthModuleType::MathModule(m.deep_clone()),
            SynthModuleType::NoiseModule(m) => SynthModuleType::NoiseModule(m.deep_clone()),
            SynthModuleType::FreeverbModule(m) => SynthModuleType::FreeverbModule(m.deep_clone()),
        }
    }

    fn patchbay(&self) -> (bay: &Patchbay) {
        match self {
            SynthModuleType::OutputModule(m) => m.patchbay(),
            SynthModuleType::OscillatorModule(m) => m.patchbay(),
            SynthModuleType::GridSequencerModule(m) => m.patchbay(),
            SynthModuleType::PatternSequencerModule(m) => m.patchbay(),
            SynthModuleType::ADSRModule(m) => m.patchbay(),
            SynthModuleType::VCAModule(m) => m.patchbay(),
            SynthModuleType::MoogFilterModule(m) => m.patchbay(),
            SynthModuleType::MonoMixerModule(m) => m.patchbay(),
            SynthModuleType::SampleModule(m) => m.patchbay(),
            SynthModuleType::MathModule(m) => m.patchbay(),
            SynthModuleType::NoiseModule(m) => m.patchbay(),
            SynthModuleType::FreeverbModule(m) => m.patchbay(),
        }
    }

    fn patchbay_mut(&mut self) -> (bay: &mut Patchbay) {
        match self {
            SynthModuleType::OutputModule(m) => m.patchbay_mut(),
            SynthModuleType::OscillatorModule(m) => m.patchbay_mut(),
            SynthModuleType::GridSequencerModule(m) => m.patchbay_mut(),
            SynthModuleType::PatternSequencerModule(m) => m.patchbay_mut(),
            SynthModuleType::ADSRModule(m) => m.patchbay_mut(),
            SynthModuleType::VCAModule(m) => m.patchbay_mut(),
            SynthModuleType::MoogFilterModule(m) => m.patchbay_mut(),
            SynthModuleType::MonoMixerModule(m) => m.patchbay_mut(),
            SynthModuleType::SampleModule(m) => m.patchbay_mut(),
            SynthModuleType::MathModule(m) => m.patchbay_mut(),
            SynthModuleType::NoiseModule(m) => m.patchbay_mut(),
            SynthModuleType::FreeverbModule(m) => m.patchbay_mut(),
        }
    }

    fn get_name(&self) -> (name: String) {
        match self {
            SynthModuleType::OutputModule(m) => SynthModule::get_name(m),
            SynthModuleType::OscillatorModule(m) => SynthModule::get_name(m),
            SynthModuleType::GridSequencerModule(m) => SynthModule::get_name(m),
            SynthModuleType::PatternSequencerModule(m) => SynthModule::get_name(m),
            SynthModuleType::ADSRModule(m) => SynthModule::get_name(m),
            SynthModuleType::VCAModule(m) => SynthModule::get_name(m),
            SynthModuleType::MoogFilterModule(m) => SynthModule::get_name(m),
            SynthModuleType::MonoMixerModule(m) => SynthModule::get_name(m),
            SynthModuleType::SampleModule(m) => SynthModule::get_name(m),
            SynthModuleType::MathModule(m) => SynthModule::get_name(m),
            SynthModuleType::NoiseModule(m) => SynthModule::get_name(m),
            SynthModuleType::FreeverbModule(m) => SynthModule::get_name(m),
        }
    }

    fn get_input_label(&self, input_idx: u8) -> (label: Result<Option<String>, ()>) {
        match self {
            SynthModuleType::OutputModule(m) => m.get_input_label(input_idx),
            SynthModuleType::OscillatorModule(m) => m.get_input_label(input_idx),
            SynthModuleType::GridSequencerModule(m) => m.get_input_label(input_idx),
            SynthModuleType::PatternSequencerModule(m) => m.get_input_label(input_idx),
            SynthModuleType::ADSRModule(m) => m.get_input_label(input_idx),
            SynthModuleType::VCAModule(m) => m.get_input_label(input_idx),
            SynthModuleType::MoogFilterModule(m) => m.get_input_label(input_idx),
            SynthModuleType::MonoMixerModule(m) => m.get_input_label(input_idx),
            SynthModuleType::SampleModule(m) => m.get_input_label(input_idx),
            SynthModuleType::MathModule(m) => m.get_input_label(input_idx),
            SynthModuleType::NoiseModule(m) => m.get_input_label(input_idx),
            SynthModuleType::FreeverbModule(m) => m.get_input_label(input_idx),
        }
    }

    fn get_output_label(&self, output_idx: u8) -> (label: Result<Option<String>, ()>) {
        match self {
            SynthModuleType::OutputModule(m) => m.get_output_label(output_idx),
            SynthModuleType::OscillatorModule(m) => m.get_output_label(output_idx),
            SynthModuleType::GridSequencerModule(m) => m.get_output_label(output_idx),
            SynthModuleType::PatternSequencerModule(m) => m.get_output_label(output_idx),
            SynthModuleType::ADSRModule(m) => m.get_output_label(output_idx),
            SynthModuleType::VCAModule(m) => m.get_output_label(output_idx),
            SynthModuleType::MoogFilterModule(m) => m.get_output_label(output_idx),
            SynthModuleType::MonoMixerModule(m) => m.get_output_label(output_idx),
            SynthModuleType::SampleModule(m) => m.get_output_label(output_idx),
            SynthModuleType::MathModule(m) => m.get_output_label(output_idx),
            SynthModuleType::NoiseModule(m) => m.get_output_label(output_idx),
            SynthModuleType::FreeverbModule(m) => m.get_output_label(output_idx),
        }
    }

    fn ui_dirty(&self) -> (dirty: bool) {
        match self {
            SynthModuleType::OutputModule(m) => m.ui_dirty(),
            SynthModuleType::OscillatorModule(m) => m.ui_dirty(),
            SynthModuleType::GridSequencerModule(m) => m.ui_dirty(),
            SynthModuleType::PatternSequencerModule(m) => m.ui_dirty(),
            SynthModuleType::ADSRModule(m) => m.ui_dirty(),
            SynthModuleType::VCAModule(m) => m.ui_dirty(),
            SynthModuleType::MoogFilterModule(m) => m.ui_dirty(),
            SynthModuleType::MonoMixerModule(m) => m.ui_dirty(),
            SynthModuleType::SampleModule(m) => m.ui_dirty(),
            SynthModuleType::MathModule(m) => m.ui_dirty(),
            SynthModuleType::NoiseModule(m) => m.ui_dirty(),
            SynthModuleType::FreeverbModule(m) => m.ui_dirty(),
        }
    }

    fn set_audio_config(&mut self, audio_config: &AudioConfig)
        ensures
            final(self).same_kind(old(self)),
    {
        match self {
            SynthModuleType::OutputModule(m) => m.set_audio_config(audio_config),
            SynthModuleType::OscillatorModule(m) => m.set_audio_config(audio_config),
            SynthModuleType::GridSequencerModule(m) => m.set_audio_config(audio_config),
            SynthModuleType::PatternSequencerModule(m) => m.set_audio_config(audio_config),
            SynthModuleType::ADSRModule(m) => m.set_audio_config(audio_config),
            SynthModuleType::VCAModule(m) => m.set_audio_config(audio_config),
            SynthModuleType::MoogFilterModule(m) => m.set_audio_config(audio_config),
            SynthModuleType::MonoMixerModule(m) => m.set_audio_config(audio_config),
            SynthModuleType::SampleModule(m) => m.set_audio_config(audio_config),
            SynthModuleType::MathModule(m) => m.set_audio_config(audio_config),
            SynthModuleType::NoiseModule(m) => m.set_audio_config(audio_config),
            SynthModuleType::FreeverbModule(m) => m.set_audio_config(audio_config),
        }
    }
}


/// The kinds of module a patch can be made of.
#[derive(Clone, Copy, Debug, PartialEq, Eq, Structural)]
pub enum ModuleKind {
    Oscillator,
    GridSequencer,
    PatternSequencer,
    Adsr,
    Vca,
    MoogFilter,
    MonoMixer,
    Sample,
    Math,
    Noise,
    Freeverb,
    Output,
}

impl ModuleKind {
    /// The name of the kind, as the catalog shows it.
    pub open spec fn name(&self) -> Seq<char> {
        match self {
            ModuleKind::Oscillator => "Oscillator"@,
            ModuleKind::GridSequencer => "Grid Sequencer"@,
            ModuleKind::PatternSequencer => "Pattern Sequencer"@,
            ModuleKind::Adsr => "ADSR"@,
            ModuleKind::Vca => "VCA"@,
            ModuleKind::MoogFilter => "Moog Filter"@,
            ModuleKind::MonoMixer => "Mono Mixer"@,
            ModuleKind::Sample => "Sample player"@,
            ModuleKind::Math => "Math"@,
            ModuleKind::Noise => "Noise"@,
            ModuleKind::Freeverb => "Freeverb"@,
            ModuleKind::Output => "Output"@,
        }
    }

    /// The name of the kind, as the catalog shows it.
    pub fn get_name(&self) -> (name: String)
        ensures
            name@ == self.name(),
    {
        match self {
            ModuleKind::Oscillator => OscillatorModule::get_name(),
            ModuleKind::GridSequencer => GridSequencerModule::get_name(),
            ModuleKind::PatternSequencer => PatternSequencerModule::get_name(),
            ModuleKind::Adsr => ADSRModule::get_name(),
            ModuleKind::Vca => VCAModule::get_name(),
            ModuleKind::MoogFilter => MoogFilterModule::get_name(),
            ModuleKind::MonoMixer => MonoMixerModule::get_name(),
            ModuleKind::Sample => SampleModule::get_name(),
            ModuleKind::Math => MathModule::get_name(),
            ModuleKind::Noise => NoiseModule::get_name(),
            ModuleKind::Freeverb => FreeverbModule::get_name(),
            ModuleKind::Output => OutputModule::get_name(),
        }
    }

    /// The kind of a module.
    pub open spec fn of(module: SynthModuleType) -> ModuleKind {
        match module {
            SynthModuleType::OutputModule(_) => ModuleKind::Output,
            SynthModuleType::OscillatorModule(_) => ModuleKind::Oscillator,
            SynthModuleType::GridSequencerModule(_) => ModuleKind::GridSequencer,
            SynthModuleType::PatternSequencerModule(_) => ModuleKind::PatternSequencer,
            SynthModuleType::ADSRModule(_) => ModuleKind::Adsr,
            SynthModuleType::VCAModule(_) => ModuleKind::Vca,
            SynthModuleType::MoogFilterModule(_) => ModuleKind::MoogFilter,
            SynthModuleType::MonoMixerModule(_) => ModuleKind::MonoMixer,
            SynthModuleType::SampleModule(_) => ModuleKind::Sample,
            SynthModuleType::MathModule(_) => ModuleKind::Math,
            SynthModuleType::NoiseModule(_) => ModuleKind::Noise,
            SynthModuleType::FreeverbModule(_) => ModuleKind::Freeverb,
        }
    }

    /// Makes a fresh module of the kind for the audio configuration: a
    /// valid module with a new identity, the settings its kind starts
    /// with, and no input connected. A math module starts as an adder.
    pub fn construct(&self, audio_config: &AudioConfig) -> (module: SynthModuleType)
        ensures
            module.wf(),
            module.fits(*audio_config),
            ModuleKind::of(module) == *self,
            module.name() == self.name(),
            module.bay().inputs() == unconnected(module.bay().inputs().len()),
            module matches SynthModuleType::MathModule(m) ==> m.operation() == MathOperation::Add,
    {
        match self {
            ModuleKind::Oscillator => SynthModuleType::OscillatorModule(
                OscillatorModule::new(audio_config),
            ),
            ModuleKind::GridSequencer => SynthModuleType::GridSequencerModule(
                GridSequencerModule::new(audio_config),
            ),
            ModuleKind::PatternSequencer => SynthModuleType::PatternSequencerModule(
                PatternSequencerModule::new(audio_config),
            ),
            ModuleKind::Adsr => SynthModuleType::ADSRModule(ADSRModule::new(audio_config)),
            ModuleKind::Vca => SynthModuleType::VCAModule(VCAModule::new(audio_config)),
            ModuleKind::MoogFilter => SynthModuleType::MoogFilterModule(
                MoogFilterModule::new(audio_config),
            ),
            ModuleKind::MonoMixer => SynthModuleType::MonoMixerModule(
                MonoMixerModule::new(audio_config),
            ),
            ModuleKind::Sample => SynthModuleType::SampleModule(SampleModule::new(audio_config)),
            ModuleKind::Math => SynthModuleType::MathModule(
                MathModule::new(audio_config, MathOperation::Add),
            ),
            ModuleKind::Noise => SynthModuleType::NoiseModule(NoiseModule::new(audio_config)),
            ModuleKind::Freeverb => SynthModuleType::FreeverbModule(
                FreeverbModule::new(audio_config),
            ),
            ModuleKind::Output => SynthModuleType::OutputModule(OutputModule::new(audio_config)),
        }
    }
}

/// The kinds of the catalog, in the order they are shown.
pub open spec fn catalog_kinds() -> Seq<ModuleKind> {
    seq![
        ModuleKind::Oscillator,
        ModuleKind::GridSequencer,
        ModuleKind::PatternSequencer,
        ModuleKind::Adsr,
        ModuleKind::Vca,
        ModuleKind::MoogFilter,
        ModuleKind::MonoMixer,
        ModuleKind::Sample,
        ModuleKind::Math,
        ModuleKind::Noise,
        ModuleKind::Freeverb,
        ModuleKind::Output,
    ]
}

/// The catalog: every kind of module with its name, in the order they are
/// shown. A module of a kind is made with `ModuleKind::construct`.
pub fn get_catalog() -> (catalog: Vec<(String, ModuleKind)>)
    ensures
        catalog.len() == 12,
        catalog.len() == catalog_kinds().len(),
        forall|k: int|
            0 <= k < catalog.len() ==> (#[trigger] catalog[k]).1 == catalog_kinds()[k]
                && catalog[k].0@ == catalog_kinds()[k].name(),
{
    let mut kinds: Vec<ModuleKind> = Vec::with_capacity(12);
    kinds.push(ModuleKind::Oscillator);
    kinds.push(ModuleKind::GridSequencer);
    kinds.push(ModuleKind::PatternSequencer);
    kinds.push(ModuleKind::Adsr);
    kinds.push(ModuleKind::Vca);
    kinds.push(ModuleKind::MoogFilter);
    kinds.push(ModuleKind::MonoMixer);
    kinds.push(ModuleKind::Sample);
    kinds.push(ModuleKind::Math);
    kinds.push(ModuleKind::Noise);
    kinds.push(ModuleKind::Freeverb);
    kinds.push(ModuleKind::Output);
    assert(kinds@ =~= catalog_kinds());
    let mut catalog: Vec<(String, ModuleKind)> = Vec::with_capacity(12);
    let mut k: usize = 0;
    while k < kinds.len()
        invariant
            k <= kinds.len(),
            kinds@ == catalog_kinds(),
            catalog.len() == k,
            forall|j: int|
                0 <= j < k ==> (#[trigger] catalog[j]).1 == kinds[j] && catalog[j].0@
                    == kinds[j].name(),
        decreases kinds.len() - k,
    {
        let kind = kinds[k];
        catalog.push((kind.get_name(), kind));
        k += 1;
    }
    catalog
}

} // verus!
