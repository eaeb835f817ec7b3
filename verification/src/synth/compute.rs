//! One block of one module, whatever its kind.
//!
//! The modules leave the arithmetic on samples to their caller. `Kernels`
//! holds that arithmetic for all kinds, and `SynthModuleType::calc` hands
//! each kind the part it needs.

use vstd::prelude::*;

use crate::synth::ControlVoltage;
use crate::synth::adsr::ADSRMode;
use crate::synth::buffer::AudioBuffer;
use crate::synth::catalog::SynthModuleType;
use crate::synth::filter::InternalMoogFilterState;
use crate::synth::filter::MoogFilterSettings;
use crate::synth::freeverb::FreeverbModule;
use crate::synth::freeverb::FreeverbUpdate;
use crate::synth::ident::ModuleId;
use crate::synth::math::MathOperation;
use crate::synth::module::SynthModule;
use crate::synth::oscillator::OscillatorState;
use crate::synth::patchbay::blocks_of;
use crate::synth::sample::SampleModule;

verus! {

/// What a sample player learns of its recording before it computes a
/// block.
#[derive(Debug)]
pub enum WaveState {
    /// A recording is being loaded.
    Busy,
    /// The recording is the one the player has.
    Unchanged,
    /// A new recording has been loaded: its samples, and the rate they were
    /// recorded at.
    Loaded(Vec<ControlVoltage>, u32),
}

/// The arithmetic on samples that the modules leave to their caller, for
/// every kind of module.
pub struct Kernels<V, D, P, A, S, M, L, X, Y, W, Q, R, B> {
    /// The samples of an oscillator and its next phase.
    pub voice: V,
    /// A sample of noise.
    pub draw: D,
    /// The pitch signal of a row of the grid.
    pub pitch: P,
    /// The phase of an envelope stage after one more sample.
    pub advance: A,
    /// The level of an envelope stage.
    pub shape: S,
    /// The product of two samples.
    pub multiply: M,
    /// One step of the ladder filter.
    pub ladder: L,
    /// A sum, and one more sample scaled by its gain.
    pub mix: X,
    /// An operation of arithmetic on two samples.
    pub apply: Y,
    /// What has become of the recording of a sample player.
    pub wave: W,
    /// The place in a recording that a position stands for.
    pub place: Q,
    /// The position in a recording after one more sample.
    pub move_on: R,
    /// The processor of a reverberator, told of its settings.
    pub reverb: B,
}

/// What input `i` reads: the block at place `i`, and nothing where the
/// row ends before it.
pub open spec fn read_at(inputs: Seq<Option<Seq<ControlVoltage>>>, i: int) -> Option<
    Seq<ControlVoltage>,
> {
    if 0 <= i < inputs.len() {
        inputs[i]
    } else {
        None
    }
}

/// The buffer at place `i` of a row, and `empty` where the row ends before
/// it.
fn buffer_at<'a>(inputs: &'a Vec<AudioBuffer>, i: usize, empty: &'a AudioBuffer) -> (buffer:
    &'a AudioBuffer)
    requires
        empty@ is None,
    ensures
        buffer@ == read_at(blocks_of(inputs@), i as int),
{
    if i < inputs.len() {
        &inputs[i]
    } else {
        empty
    }
}

impl<
    V: Fn(OscillatorState, Option<ControlVoltage>) -> (ControlVoltage, ControlVoltage, ControlVoltage, u64),
    D: Fn() -> ControlVoltage,
    P: Fn(u16, u16) -> ControlVoltage,
    A: Fn(ControlVoltage, u32, ControlVoltage) -> ControlVoltage,
    S: Fn(ADSRMode, ControlVoltage, ControlVoltage, ControlVoltage) -> ControlVoltage,
    M: Fn(ControlVoltage, ControlVoltage) -> ControlVoltage,
    L: Fn(MoogFilterSettings, ControlVoltage, ControlVoltage) -> (InternalMoogFilterState, ControlVoltage, ControlVoltage, ControlVoltage),
    X: Fn(ControlVoltage, ControlVoltage, ControlVoltage) -> ControlVoltage,
    Y: Fn(MathOperation, ControlVoltage, ControlVoltage) -> ControlVoltage,
    W: Fn(ModuleId) -> WaveState,
    Q: Fn(ControlVoltage) -> usize,
    R: Fn(ControlVoltage, u32, u32, ControlVoltage) -> ControlVoltage,
    T: Fn(ControlVoltage, ControlVoltage) -> (ControlVoltage, ControlVoltage),
    B: Fn(ModuleId, FreeverbUpdate) -> T,
> Kernels<V, D, P, A, S, M, L, X, Y, W, Q, R, B> {
    /// Every kernel takes every input, and so does every processor that
    /// `reverb` hands out.
    pub open spec fn total(&self) -> bool {
        &&& forall|state: OscillatorState, cv: Option<ControlVoltage>|
            call_requires(self.voice, (state, cv))
        &&& call_requires(self.draw, ())
        &&& forall|row: u16, steps: u16| call_requires(self.pitch, (row, steps))
        &&& forall|p: ControlVoltage, r: u32, t: ControlVoltage|
            call_requires(self.advance, (p, r, t))
        &&& forall|m: ADSRMode, r: ControlVoltage, s: ControlVoltage, p: ControlVoltage|
            call_requires(self.shape, (m, r, s, p))
        &&& forall|a: ControlVoltage, c: ControlVoltage| call_requires(self.multiply, (a, c))
        &&& forall|set: MoogFilterSettings, audio: ControlVoltage, cv: ControlVoltage|
            call_requires(self.ladder, (set, audio, cv))
        &&& forall|acc: ControlVoltage, src: ControlVoltage, gain: ControlVoltage|
            call_requires(self.mix, (acc, src, gain))
        &&& forall|op: MathOperation, a: ControlVoltage, b: ControlVoltage|
            call_requires(self.apply, (op, a, b))
        &&& forall|id: ModuleId| call_requires(self.wave, (id,))
        &&& forall|pos: ControlVoltage| call_requires(self.place, (pos,))
        &&& forall|pos: ControlVoltage, from: u32, to: u32, cv: ControlVoltage|
            call_requires(self.move_on, (pos, from, to, cv))
        &&& forall|id: ModuleId, update: FreeverbUpdate|
            call_requires(self.reverb, (id, update))
        &&& forall|id: ModuleId, update: FreeverbUpdate, tick: T| #[trigger]
            call_ensures(self.reverb, (id, update), tick) ==> forall|
                l: ControlVoltage,
                r: ControlVoltage,
            | call_requires(tick, (l, r))
    }

    /// A sample player goes from `before` to `after` in one block: it
    /// learns what has become of its recording; while one is being loaded
    /// it is silent, and else it plays the recording it has, or the new
    /// one.
    pub open spec fn plays(
        &self,
        before: SampleModule,
        gate_in: Option<Seq<ControlVoltage>>,
        cv_in: Option<Seq<ControlVoltage>>,
        after: SampleModule,
    ) -> bool {
        exists|state: WaveState| #[trigger]
            call_ensures(self.wave, (before.bay().ident(),), state) && match state {
                WaveState::Busy => after.computed_loading(before, gate_in),
                WaveState::Unchanged => after.computed(
                    before,
                    gate_in,
                    cv_in,
                    self.place,
                    self.move_on,
                ),
                WaveState::Loaded(samples, sample_rate) => exists|mid: SampleModule|
                    mid.loaded(before, samples@, sample_rate) && #[trigger] after.computed(
                        mid,
                        gate_in,
                        cv_in,
                        self.place,
                        self.move_on,
                    ),
            }
    }

    /// A reverberator goes from `before` to `after` in one block: its
    /// processor is told of its settings, and then gives the frames of the
    /// block.
    pub open spec fn reverberates(
        &self,
        before: FreeverbModule,
        left_in: Option<Seq<ControlVoltage>>,
        right_in: Option<Seq<ControlVoltage>>,
        after: FreeverbModule,
    ) -> bool {
        exists|mid: FreeverbModule, tick: T|
            {
                &&& mid.retuned(before)
                &&& call_ensures(
                    self.reverb,
                    (before.bay().ident(), before.settings().update()),
                    tick,
                )
                &&& #[trigger] after.computed(mid, left_in, right_in, tick)
            }
    }

    /// A module goes from `before` to `after` in one block, computed from
    /// the blocks `inputs` that its inputs read: a module of each kind as
    /// that kind computes its block, its first input reading the first
    /// block, and so on.
    #[verifier::opaque]
    pub open spec fn computes(
        &self,
        before: SynthModuleType,
        inputs: Seq<Option<Seq<ControlVoltage>>>,
        after: SynthModuleType,
    ) -> bool {
        let first = read_at(inputs, 0);
        let second = read_at(inputs, 1);
        match (before, after) {
            (SynthModuleType::OutputModule(b), SynthModuleType::OutputModule(a)) => a.computed(
                b,
                inputs,
            ),
            (
                SynthModuleType::OscillatorModule(b),
                SynthModuleType::OscillatorModule(a),
            ) => a.computed(b, first, second, self.voice),
            (
                SynthModuleType::GridSequencerModule(b),
                SynthModuleType::GridSequencerModule(a),
            ) => a.computed(b, first, second, self.pitch),
            (
                SynthModuleType::PatternSequencerModule(b),
                SynthModuleType::PatternSequencerModule(a),
            ) => a.computed(b, first, second),
            (SynthModuleType::ADSRModule(b), SynthModuleType::ADSRModule(a)) => a.computed(
                b,
                first,
                self.advance,
                self.shape,
            ),
            (SynthModuleType::VCAModule(b), SynthModuleType::VCAModule(a)) => a.computed(
                b,
                first,
                second,
                self.multiply,
            ),
            (
                SynthModuleType::MoogFilterModule(b),
                SynthModuleType::MoogFilterModule(a),
            ) => a.computed(b, first, second, self.ladder),
            (
                SynthModuleType::MonoMixerModule(b),
                SynthModuleType::MonoMixerModule(a),
            ) => a.computed(b, inputs, self.mix),
            (SynthModuleType::SampleModule(b), SynthModuleType::SampleModule(a)) => self.plays(
                b,
                first,
                second,
                a,
            ),
            (SynthModuleType::MathModule(b), SynthModuleType::MathModule(a)) => a.computed(
                b,
                first,
                second,
                self.apply,
            ),
            (SynthModuleType::NoiseModule(b), SynthModuleType::NoiseModule(a)) => a.computed(
                b,
                self.draw,
            ),
            (
                SynthModuleType::FreeverbModule(b),
                SynthModuleType::FreeverbModule(a),
            ) => self.reverberates(b, first, second, a),
            _ => false,
        }
    }

    /// What a module computes depends on the module only through its
    /// settings and its patchbay: a module with the settings, the
    /// connections and the output blocks of another computes, from the same
    /// blocks, whatever the other computes.
    pub proof fn lemma_computes_alike(
        &self,
        first: SynthModuleType,
        second: SynthModuleType,
        inputs: Seq<Option<Seq<ControlVoltage>>>,
        after: SynthModuleType,
    )
        requires
            first.same_settings(&second),
            first.bay() == second.bay(),
            self.computes(first, inputs, after),
        ensures
            self.computes(second, inputs, after),
    {
        reveal(Kernels::computes);
    }

    /// A block leaves a module its kind, its identity and its connections.
    pub proof fn lemma_computes(
        &self,
        before: SynthModuleType,
        inputs: Seq<Option<Seq<ControlVoltage>>>,
        after: SynthModuleType,
    )
        requires
            self.computes(before, inputs, after),
        ensures
            after.same_kind(&before),
            after.bay().ident() == before.bay().ident(),
            after.bay().inputs() == before.bay().inputs(),
    {
        reveal(Kernels::computes);
    }
}

impl SynthModuleType {
    /// Computes one block of the module, from the blocks `inputs` that its
    /// inputs read, in their order. Where the row is too short, an input
    /// reads nothing.
    pub fn calc<
        V: Fn(OscillatorState, Option<ControlVoltage>) -> (ControlVoltage, ControlVoltage, ControlVoltage, u64),
        D: Fn() -> ControlVoltage,
        P: Fn(u16, u16) -> ControlVoltage,
        A: Fn(ControlVoltage, u32, ControlVoltage) -> ControlVoltage,
        S: Fn(ADSRMode, ControlVoltage, ControlVoltage, ControlVoltage) -> ControlVoltage,
        M: Fn(ControlVoltage, ControlVoltage) -> ControlVoltage,
        L: Fn(MoogFilterSettings, ControlVoltage, ControlVoltage) -> (InternalMoogFilterState, ControlVoltage, ControlVoltage, ControlVoltage),
        X: Fn(ControlVoltage, ControlVoltage, ControlVoltage) -> ControlVoltage,
        Y: Fn(MathOperation, ControlVoltage, ControlVoltage) -> ControlVoltage,
        W: Fn(ModuleId) -> WaveState,
        Q: Fn(ControlVoltage) -> usize,
        R: Fn(ControlVoltage, u32, u32, ControlVoltage) -> ControlVoltage,
        T: Fn(ControlVoltage, ControlVoltage) -> (ControlVoltage, ControlVoltage),
        B: Fn(ModuleId, FreeverbUpdate) -> T,
    >(
        &mut self,
        inputs: &Vec<AudioBuffer>,
        kernels: &Kernels<V, D, P, A, S, M, L, X, Y, W, Q, R, B>,
    )
        requires
            old(self).wf(),
            kernels.total(),
        ensures
            final(self).wf(),
            kernels.computes(*old(self), blocks_of(inputs@), *final(self)),
    {
        proof {
            reveal(Kernels::computes);
        }
        let empty = AudioBuffer::new(None);
        let first = buffer_at(inputs, 0, &empty);
        let second = buffer_at(inputs, 1, &empty);
        match self {
            SynthModuleType::OutputModule(m) => m.calc(inputs),
            SynthModuleType::OscillatorModule(m) => m.calc(first, second, &kernels.voice),
            SynthModuleType::GridSequencerModule(m) => m.calc(first, second, &kernels.pitch),
            SynthModuleType::PatternSequencerModule(m) => m.calc(first, second),
            SynthModuleType::ADSRModule(m) => m.calc(first, &kernels.advance, &kernels.shape),
            SynthModuleType::VCAModule(m) => m.calc(first, second, &kernels.multiply),
            SynthModuleType::MoogFilterModule(m) => m.calc(first, second, &kernels.ladder),
            SynthModuleType::MonoMixerModule(m) => m.calc(inputs, &kernels.mix),
            SynthModuleType::SampleModule(m) => {
                let wave = &kernels.wave;
                match wave(m.id()) {
                    WaveState::Busy => m.calc_loading(first),
                    WaveState::Unchanged => m.calc(first, second, &kernels.place, &kernels.move_on),
                    WaveState::Loaded(samples, sample_rate) => {
                        m.set_wavebox(samples, sample_rate);
                        m.calc(first, second, &kernels.place, &kernels.move_on);
                    },
                }
            },
            SynthModuleType::MathModule(m) => m.calc(first, second, &kernels.apply),
            SynthModuleType::NoiseModule(m) => m.calc(&kernels.draw),
            SynthModuleType::FreeverbModule(m) => {
                let id = m.id();
                let update = m.retune();
                let reverb = &kernels.reverb;
                let tick = reverb(id, update);
                m.calc(first, second, &tick);
            },
        }
    }
}

} // verus!
