//! The oscillator and the noise source.

use vstd::prelude::*;

use crate::synth::above_threshold;
use crate::synth::buffer::read_sample;
use crate::synth::buffer::sample_at;
use crate::synth::buffer::AudioBuffer;
use crate::synth::ident::fresh_id;
use crate::synth::ident::ModuleId;
use crate::synth::module::all_present;
use crate::synth::module::block_len;
use crate::synth::module::lemma_resized_sized;
use crate::synth::module::same_shape;
use crate::synth::module::sized;
use crate::synth::module::unconnected;
use crate::synth::module::SynthModule;
use crate::synth::patchbay::silent_blocks;
use crate::synth::patchbay::Patchbay;
use crate::synth::AudioConfig;
use crate::synth::ControlVoltage;
use crate::synth::SILENCE;
use crate::synth::TransitionDetector;

verus! {

/// What an oscillator is set to and where it stands.
#[derive(Clone, Copy, Debug, PartialEq, Eq, Structural)]
pub struct OscillatorState {
    /// The pitch setting in octaves above 440 Hz.
    pub val: ControlVoltage,
    /// The device's sample rate.
    pub sample_rate: u32,
    /// The phase in cycles, as the bit pattern of a binary64 number.
    pub pos: u64,
    /// Whether the square and the sawtooth are smoothed at their steps.
    pub antialiasing: bool,
    /// Watches the sync input.
    pub sync_detector: TransitionDetector,
}

/// An oscillator with sine, square and sawtooth outputs that share one
/// phase, a pitch input and a hard-sync input.
#[derive(Debug)]
pub struct OscillatorModule {
    bay: Patchbay,
    state: OscillatorState,
}

impl OscillatorModule {
    /// An oscillator with the given identity and state, its outputs
    /// silent.
    pub fn restore(id: ModuleId, state: OscillatorState, audio_config: &AudioConfig) -> (module:
        Self)
        ensures
            module.wf(),
            module.fits(*audio_config) == (state.sample_rate == audio_config.sample_rate),
            module.bay().ident() == id,
            module.bay().inputs() == unconnected(2),
            module.bay().outputs() == silent_blocks(3, audio_config.buffer_size as nat),
            module.state() == state,
    {
        let bay = Patchbay::new(id, 2, 3, audio_config.buffer_size);
        assert(all_present(bay.outputs()));
        Self { bay, state }
    }

    /// A fresh oscillator at 440 Hz and phase 0, smoothing switched on.
    pub fn new(audio_config: &AudioConfig) -> (module: Self)
        ensures
            module.wf(),
            module.fits(*audio_config),
            module.bay().inputs() == unconnected(2),
            module.bay().outputs() == silent_blocks(3, audio_config.buffer_size as nat),
            module.state() == (OscillatorState {
                val: SILENCE,
                sample_rate: audio_config.sample_rate,
                pos: 0,
                antialiasing: true,
                sync_detector: TransitionDetector { last: true },
            }),
    {
        let bay = Patchbay::new(fresh_id(), 2, 3, audio_config.buffer_size);
        assert(all_present(bay.outputs()));
        Self {
            bay,
            state: OscillatorState {
                val: SILENCE,
                sample_rate: audio_config.sample_rate,
                pos: 0,
                antialiasing: true,
                sync_detector: TransitionDetector::new(),
            },
        }
    }

    /// The name of this kind of module.
    pub fn get_name() -> (name: String)
        ensures
            name@ == "Oscillator"@,
    {
        "Oscillator".to_owned()
    }

    /// What the oscillator is set to and where it stands.
    pub closed spec fn state(&self) -> OscillatorState {
        self.state
    }

    /// What the oscillator is set to and where it stands.
    pub fn state_ref(&self) -> (state: &OscillatorState)
        ensures
            *state == self.state(),
    {
        &self.state
    }

    /// The settings, to be changed.
    pub fn state_mut(&mut self) -> (state: &mut OscillatorState)
        ensures
            *state == old(self).state(),
            final(self).state() == *final(state),
            final(self).bay() == old(self).bay(),
            final(self).wf() == old(self).wf(),
    {
        &mut self.state
    }
}

/// The pitch sample an oscillator reads at place `i` of a block: none
/// where the input is not connected or its block ends early.
pub open spec fn pitch_at(cv: Option<Seq<ControlVoltage>>, i: int) -> Option<ControlVoltage> {
    match cv {
        Some(block) => if 0 <= i < block.len() {
            Some(block[i])
        } else {
            None
        },
        None => None,
    }
}

impl OscillatorState {
    /// The state after the sync input has been looked at: a rising edge
    /// sets the phase back to zero.
    pub open spec fn synced(&self, sync: ControlVoltage) -> OscillatorState {
        OscillatorState {
            pos: if above_threshold(sync) && !self.sync_detector.last {
                0
            } else {
                self.pos
            },
            sync_detector: TransitionDetector { last: above_threshold(sync) },
            ..*self
        }
    }

    /// One sample takes the oscillator from `self` to `after` and puts out
    /// the three samples: `voice` computes them, and the next phase, from
    /// the state after the sync input has been looked at.
    pub open spec fn ticks_to<
        V: Fn(OscillatorState, Option<ControlVoltage>) -> (
            ControlVoltage,
            ControlVoltage,
            ControlVoltage,
            u64,
        ),
    >(
        &self,
        sync: ControlVoltage,
        cv: Option<ControlVoltage>,
        after: OscillatorState,
        sine: ControlVoltage,
        square: ControlVoltage,
        saw: ControlVoltage,
        voice: V,
    ) -> bool {
        &&& call_ensures(voice, (self.synced(sync), cv), (sine, square, saw, after.pos))
        &&& after == OscillatorState { pos: after.pos, ..self.synced(sync) }
    }

    /// The oscillator passes through the states of `trace`, one for each
    /// sample of the block, and puts out the samples of the three blocks.
    pub open spec fn runs<
        V: Fn(OscillatorState, Option<ControlVoltage>) -> (
            ControlVoltage,
            ControlVoltage,
            ControlVoltage,
            u64,
        ),
    >(
        trace: Seq<OscillatorState>,
        cv: Option<Seq<ControlVoltage>>,
        sync: Option<Seq<ControlVoltage>>,
        sine: Seq<ControlVoltage>,
        square: Seq<ControlVoltage>,
        saw: Seq<ControlVoltage>,
        voice: V,
    ) -> bool {
        &&& trace.len() == sine.len() + 1
        &&& square.len() == sine.len()
        &&& saw.len() == sine.len()
        &&& forall|i: int|
            0 <= i < sine.len() ==> (#[trigger] trace[i]).ticks_to(
                sample_at(sync, i),
                pitch_at(cv, i),
                trace[i + 1],
                sine[i],
                square[i],
                saw[i],
                voice,
            )
    }
}

impl OscillatorModule {
    /// The oscillator has computed one block since it was `before`, from the
    /// blocks its inputs read.
    ///
    /// Sample by sample, a rising sync input sets the phase back to zero;
    /// then `voice` gives the three samples, which go to the three
    /// outputs, and the phase for the next sample.
    pub open spec fn computed<
        V: Fn(OscillatorState, Option<ControlVoltage>) -> (
            ControlVoltage,
            ControlVoltage,
            ControlVoltage,
            u64,
        ),
    >(
        &self,
        before: Self,
        cv_in: Option<Seq<ControlVoltage>>,
        sync_in: Option<Seq<ControlVoltage>>,
        voice: V,
    ) -> bool {
        &&& self.bay().ident() == before.bay().ident()
        &&& self.bay().inputs() == before.bay().inputs()
        &&& same_shape(self.bay(), before.bay())
        &&& exists|trace: Seq<OscillatorState>|
            {
                &&& #[trigger] OscillatorState::runs(
                    trace,
                    cv_in,
                    sync_in,
                    self.bay().outputs()[0]->0,
                    self.bay().outputs()[1]->0,
                    self.bay().outputs()[2]->0,
                    voice,
                )
                &&& trace[0] == before.state()
                &&& trace.last() == self.state()
            }
    }

    /// Computes one block. `voice` computes the sine, square and sawtooth
    /// samples and the next phase from the state and the pitch sample.
    pub fn calc<
        V: Fn(OscillatorState, Option<ControlVoltage>) -> (
            ControlVoltage,
            ControlVoltage,
            ControlVoltage,
            u64,
        ),
    >(
        &mut self,
        cv_in: &AudioBuffer,
        sync_in: &AudioBuffer,
        voice: &V,
    )
        requires
            old(self).wf(),
            forall|state: OscillatorState, cv: Option<ControlVoltage>|
                call_requires(*voice, (state, cv)),
        ensures
            final(self).wf(),
            final(self).computed(*old(self), cv_in@, sync_in@, *voice),
    {
        let ghost old_bay = self.bay;
        assert(all_present(self.bay.outputs()));
        assert(self.bay.outputs()[1] is Some && self.bay.outputs()[2] is Some);
        let mut sine = self.bay.take_output(0).unwrap();
        let mut square = self.bay.take_output(1).unwrap();
        let mut saw = self.bay.take_output(2).unwrap();
        let ghost taken_bay = self.bay;
        let cv_block = cv_in.get();
        let sync_block = sync_in.get();
        let n = sine.len();
        let ghost mut trace: Seq<OscillatorState> = seq![self.state];
        let mut idx: usize = 0;
        while idx < n
            invariant
                self.bay == taken_bay,
                idx <= n,
                n == sine.len(),
                n == square.len(),
                n == saw.len(),
                match cv_block {
                    Some(v) => cv_in@ == Some(v@),
                    None => cv_in@ is None,
                },
                match sync_block {
                    Some(v) => sync_in@ == Some(v@),
                    None => sync_in@ is None,
                },
                forall|state: OscillatorState, cv: Option<ControlVoltage>|
                    call_requires(*voice, (state, cv)),
                trace.len() == idx + 1,
                trace[0] == old(self).state,
                trace.last() == self.state,
                forall|i: int|
                    0 <= i < idx ==> (#[trigger] trace[i]).ticks_to(
                        sample_at(sync_in@, i),
                        pitch_at(cv_in@, i),
                        trace[i + 1],
                        sine[i],
                        square[i],
                        saw[i],
                        *voice,
                    ),
            decreases n - idx,
        {
            let sync_sample = read_sample(sync_block, idx);
            let cv_sample = match cv_block {
                Some(block) => if idx < block.len() {
                    Some(block[idx])
                } else {
                    None
                },
                None => None,
            };
            let ghost before = self.state;
            if self.state.sync_detector.is_transition(&sync_sample) {
                self.state.pos = 0;
            }
            assert(self.state == before.synced(sync_sample));
            let (a, b, c, next) = voice(self.state, cv_sample);
            sine.set(idx, a);
            square.set(idx, b);
            saw.set(idx, c);
            self.state.pos = next;
            proof {
                assert(before.ticks_to(sync_sample, cv_sample, self.state, a, b, c, *voice));
                trace = trace.push(self.state);
            }
            idx += 1;
        }
        self.bay.put_output(0, sine);
        self.bay.put_output(1, square);
        self.bay.put_output(2, saw);
        proof {
            assert(self.bay.outputs() =~= old_bay.outputs().update(0, Some(sine@)).update(
                1,
                Some(square@),
            ).update(2, Some(saw@)));
            assert(OscillatorState::runs(trace, cv_in@, sync_in@, sine@, square@, saw@, *voice));
            assert(OscillatorState::runs(
                trace,
                cv_in@,
                sync_in@,
                self.bay().outputs()[0]->0,
                self.bay().outputs()[1]->0,
                self.bay().outputs()[2]->0,
                *voice,
            ));
            assert(trace[0] == old(self).state());
            assert(trace.last() == self.state());
        }
    }
}

impl SynthModule for OscillatorModule {
    closed spec fn bay(&self) -> Patchbay {
        self.bay
    }

    open spec fn wf(&self) -> bool {
        &&& self.bay().wf()
        &&& self.bay().inputs().len() == 2
        &&& self.bay().outputs().len() == 3
        &&& all_present(self.bay().outputs())
    }

    open spec fn name(&self) -> Seq<char> {
        "Oscillator"@
    }

    open spec fn input_label(&self, input_idx: int) -> Option<Seq<char>> {
        if input_idx == 0 {
            Some("CV"@)
        } else if input_idx == 1 {
            Some("Sync"@)
        } else {
            None
        }
    }

    open spec fn output_label(&self, output_idx: int) -> Option<Seq<char>> {
        if output_idx == 0 {
            Some("Sine"@)
        } else if output_idx == 1 {
            Some("Square"@)
        } else if output_idx == 2 {
            Some("Sawtooth"@)
        } else {
            None
        }
    }

    open spec fn dirty(&self) -> bool {
        false
    }

    open spec fn same_settings(&self, other: &Self) -> bool {
        self.state() == other.state()
    }

    open spec fn fits(&self, audio_config: AudioConfig) -> bool {
        &&& sized(self.bay().outputs(), audio_config.buffer_size as nat)
        &&& self.state().sample_rate == audio_config.sample_rate
    }

    proof fn lemma_fits(&self, other: &Self, audio_config: AudioConfig) {
        assert(other.same_settings(self) && other.bay().outputs() == self.bay().outputs()
            ==> other.fits(audio_config) == self.fits(audio_config));
    }

    proof fn lemma_settings(&self, other: &Self) {
        assert(self.same_settings(self));
        assert(other.same_settings(self) ==> other.name() == self.name());
        assert(other.same_settings(self) ==> other.dirty() == self.dirty());
        assert(forall|i: int| other.input_label(i) == self.input_label(i));
        assert(forall|i: int| other.output_label(i) == self.output_label(i));
    }

    proof fn lemma_settings_chain(&self, second: &Self, third: &Self) {
        assert(self.same_settings(second) ==> second.same_settings(self));
        assert(self.same_settings(second) && second.same_settings(third) ==> self.same_settings(
            third,
        ));
    }

    fn deep_clone(&self) -> (copy: Self) {
        Self { bay: self.bay.deep_clone(), state: self.state }
    }

    fn patchbay(&self) -> (bay: &Patchbay) {
        &self.bay
    }

    fn patchbay_mut(&mut self) -> (bay: &mut Patchbay) {
        &mut self.bay
    }

    fn get_name(&self) -> (name: String) {
        Self::get_name()
    }

    fn get_input_label(&self, input_idx: u8) -> (label: Result<Option<String>, ()>) {
        match input_idx {
            0 => Ok(Some("CV".to_owned())),
            1 => Ok(Some("Sync".to_owned())),
            _ => Err(()),
        }
    }

    fn get_output_label(&self, output_idx: u8) -> (label: Result<Option<String>, ()>) {
        match output_idx {
            0 => Ok(Some("Sine".to_owned())),
            1 => Ok(Some("Square".to_owned())),
            2 => Ok(Some("Sawtooth".to_owned())),
            _ => Err(()),
        }
    }

    fn ui_dirty(&self) -> (dirty: bool) {
        false
    }

    fn set_audio_config(&mut self, audio_config: &AudioConfig)
        ensures
            final(self).state() == (OscillatorState {
                sample_rate: audio_config.sample_rate,
                ..old(self).state()
            }),
    {
        proof {
            lemma_resized_sized(self.bay.outputs(), audio_config.buffer_size as nat);
        }
        self.state.sample_rate = audio_config.sample_rate;
        self.bay.resize_outputs(audio_config.buffer_size);
    }
}

/// A source of noise: every sample drawn anew.
#[derive(Debug)]
pub struct NoiseModule {
    bay: Patchbay,
}

impl NoiseModule {
    /// A noise source with the given identity, its output silent.
    pub fn restore(id: ModuleId, audio_config: &AudioConfig) -> (module: Self)
        ensures
            module.wf(),
            module.fits(*audio_config),
            module.bay().ident() == id,
            module.bay().inputs() == unconnected(0),
            module.bay().outputs() == silent_blocks(1, audio_config.buffer_size as nat),
    {
        let bay = Patchbay::new(id, 0, 1, audio_config.buffer_size);
        assert(all_present(bay.outputs()));
        Self { bay }
    }

    /// A fresh noise source: no input, one silent output.
    pub fn new(audio_config: &AudioConfig) -> (module: Self)
        ensures
            module.wf(),
            module.fits(*audio_config),
            module.bay().inputs() == unconnected(0),
            module.bay().outputs() == silent_blocks(1, audio_config.buffer_size as nat),
    {
        let bay = Patchbay::new(fresh_id(), 0, 1, audio_config.buffer_size);
        assert(all_present(bay.outputs()));
        Self { bay }
    }

    /// The name of this kind of module.
    pub fn get_name() -> (name: String)
        ensures
            name@ == "Noise"@,
    {
        "Noise".to_owned()
    }
}

impl NoiseModule {
    /// The module has computed one block since it was `before`: every sample
    /// of the output was drawn with `draw`.
    pub open spec fn computed<F: Fn() -> ControlVoltage>(
        &self,
        before: Self,
        draw: F,
    ) -> bool {
        &&& self.bay().ident() == before.bay().ident()
        &&& self.bay().inputs() == before.bay().inputs()
        &&& same_shape(self.bay(), before.bay())
        &&& forall|i: int|
            0 <= i < block_len(self.bay().outputs()[0]) ==> call_ensures(
                draw,
                (),
                #[trigger] self.bay().outputs()[0]->0[i],
            )
    }

    /// Computes one block: every sample of the output is drawn with
    /// `draw`.
    pub fn calc<F: Fn() -> ControlVoltage>(
        &mut self,
        draw: &F,
    )
        requires
            old(self).wf(),
            call_requires(*draw, ()),
        ensures
            final(self).wf(),
            final(self).computed(*old(self), *draw),
    {
        assert(all_present(self.bay.outputs()));
        let mut output = self.bay.take_output(0).unwrap();
        let mut idx: usize = 0;
        let ghost len = output.len();
        while idx < output.len()
            invariant
                idx <= output.len(),
                output.len() == len,
                call_requires(*draw, ()),
                forall|i: int| 0 <= i < idx ==> call_ensures(*draw, (), #[trigger] output[i]),
            decreases output.len() - idx,
        {
            output.set(idx, draw());
            idx += 1;
        }
        self.bay.put_output(0, output);
        assert(self.bay.outputs()[0] == Some(output@));
    }
}

impl SynthModule for NoiseModule {
    closed spec fn bay(&self) -> Patchbay {
        self.bay
    }

    open spec fn wf(&self) -> bool {
        &&& self.bay().wf()
        &&& self.bay().inputs().len() == 0
        &&& self.bay().outputs().len() == 1
        &&& all_present(self.bay().outputs())
    }

    open spec fn name(&self) -> Seq<char> {
        "Noise"@
    }

    open spec fn input_label(&self, input_idx: int) -> Option<Seq<char>> {
        None
    }

    open spec fn output_label(&self, output_idx: int) -> Option<Seq<char>> {
        None
    }

    open spec fn dirty(&self) -> bool {
        false
    }

    open spec fn same_settings(&self, other: &Self) -> bool {
        true
    }

    open spec fn fits(&self, audio_config: AudioConfig) -> bool {
        &&& sized(self.bay().outputs(), audio_config.buffer_size as nat)
    }

    proof fn lemma_fits(&self, other: &Self, audio_config: AudioConfig) {
        assert(other.same_settings(self) && other.bay().outputs() == self.bay().outputs()
            ==> other.fits(audio_config) == self.fits(audio_config));
    }

    proof fn lemma_settings(&self, other: &Self) {
        assert(self.same_settings(self));
        assert(other.same_settings(self) ==> other.name() == self.name());
        assert(other.same_settings(self) ==> other.dirty() == self.dirty());
        assert(forall|i: int| other.input_label(i) == self.input_label(i));
        assert(forall|i: int| other.output_label(i) == self.output_label(i));
    }

    proof fn lemma_settings_chain(&self, second: &Self, third: &Self) {
        assert(self.same_settings(second) ==> second.same_settings(self));
        assert(self.same_settings(second) && second.same_settings(third) ==> self.same_settings(
            third,
        ));
    }

    fn deep_clone(&self) -> (copy: Self) {
        Self { bay: self.bay.deep_clone() }
    }

    fn patchbay(&self) -> (bay: &Patchbay) {
        &self.bay
    }

    fn patchbay_mut(&mut self) -> (bay: &mut Patchbay) {
        &mut self.bay
    }

    fn get_name(&self) -> (name: String) {
        Self::get_name()
    }

    fn get_input_label(&self, input_idx: u8) -> (label: Result<Option<String>, ()>) {
        match input_idx {
            _ => Err(()),
        }
    }

    fn get_output_label(&self, output_idx: u8) -> (label: Result<Option<String>, ()>) {
        match output_idx {
            0 => Ok(None),
            _ => Err(()),
        }
    }

    fn ui_dirty(&self) -> (dirty: bool) {
        false
    }

    fn set_audio_config(&mut self, audio_config: &AudioConfig)
        ensures
            final(self).same_settings(old(self)),
    {
        proof {
            lemma_resized_sized(self.bay.outputs(), audio_config.buffer_size as nat);
        }
        self.bay.resize_outputs(audio_config.buffer_size);
    }
}

} // verus!
