//! The ladder filter.

use vstd::prelude::*;

use crate::synth::buffer::read_sample;
use crate::synth::buffer::sample_at;
use crate::synth::buffer::AudioBuffer;
use crate::synth::ident::fresh_id;
use crate::synth::ident::ModuleId;
use crate::synth::module::all_present;
use crate::synth::module::lemma_resized_sized;
use crate::synth::module::same_shape;
use crate::synth::module::sized;
use crate::synth::module::unconnected;
use crate::synth::module::SynthModule;
use crate::synth::patchbay::silent_blocks;
use crate::synth::patchbay::Patchbay;
use crate::synth::AudioConfig;
use crate::synth::ControlVoltage;
use crate::synth::SILENCE;

verus! {

/// The bit pattern of `0.2`.
pub const ONE_FIFTH: ControlVoltage = 0x3E4C_CCCD;

/// The bit pattern of `0.5`.
pub const HALF: ControlVoltage = 0x3F00_0000;

/// What the ladder remembers from one sample to the next: the coefficients
/// `f`, `p` and `q`, the frequency and the resonance they were computed
/// for, the input memory `b[0]` and the four stages `b[1]` to `b[4]`.
#[derive(Clone, Copy, Debug)]
pub struct InternalMoogFilterState {
    pub f: ControlVoltage,
    pub p: ControlVoltage,
    pub q: ControlVoltage,
    pub b: [ControlVoltage; 5],
    pub freq: ControlVoltage,
    pub res: ControlVoltage,
}

impl InternalMoogFilterState {
    /// The state of a ladder at rest: all zero.
    pub fn new() -> (state: Self)
        ensures
            state.f == SILENCE,
            state.p == SILENCE,
            state.q == SILENCE,
            state.freq == SILENCE,
            state.res == SILENCE,
            forall|k: int| 0 <= k < 5 ==> state.b[k] == SILENCE,
    {
        Self {
            f: SILENCE,
            p: SILENCE,
            q: SILENCE,
            b: [SILENCE, SILENCE, SILENCE, SILENCE, SILENCE],
            freq: SILENCE,
            res: SILENCE,
        }
    }
}

/// What a filter is set to, and the memory of its ladder.
#[derive(Clone, Copy, Debug)]
pub struct MoogFilterSettings {
    /// The cutoff setting, from 0 to 1.
    pub freq: ControlVoltage,
    /// The resonance, from 0 to 1.
    pub res: ControlVoltage,
    /// How far the control input moves the cutoff.
    pub exp_amt: ControlVoltage,
    /// The ladder's memory.
    pub state: InternalMoogFilterState,
}

/// A four-pole resonant ladder filter with low-pass, band-pass and
/// high-pass outputs.
#[derive(Debug)]
pub struct MoogFilterModule {
    bay: Patchbay,
    set: MoogFilterSettings,
}

impl MoogFilterModule {
    /// A filter with the given identity and settings, its outputs silent.
    pub fn restore(id: ModuleId, set: MoogFilterSettings, audio_config: &AudioConfig) -> (module:
        Self)
        ensures
            module.wf(),
            module.fits(*audio_config),
            module.bay().ident() == id,
            module.bay().inputs() == unconnected(2),
            module.bay().outputs() == silent_blocks(3, audio_config.buffer_size as nat),
            module.settings() == set,
    {
        let bay = Patchbay::new(id, 2, 3, audio_config.buffer_size);
        assert(all_present(bay.outputs()));
        Self { bay, set }
    }

    /// A fresh filter at rest: cutoff 0.2, resonance 0.5, control depth 0.5.
    pub fn new(audio_config: &AudioConfig) -> (module: Self)
        ensures
            module.wf(),
            module.fits(*audio_config),
            module.bay().inputs() == unconnected(2),
            module.bay().outputs() == silent_blocks(3, audio_config.buffer_size as nat),
            module.settings().freq == ONE_FIFTH,
            module.settings().res == HALF,
            module.settings().exp_amt == HALF,
            module.settings().state.f == SILENCE,
            module.settings().state.p == SILENCE,
            module.settings().state.q == SILENCE,
            module.settings().state.freq == SILENCE,
            module.settings().state.res == SILENCE,
            forall|k: int| 0 <= k < 5 ==> module.settings().state.b[k] == SILENCE,
    {
        let bay = Patchbay::new(fresh_id(), 2, 3, audio_config.buffer_size);
        assert(all_present(bay.outputs()));
        Self {
            bay,
            set: MoogFilterSettings {
                freq: ONE_FIFTH,
                res: HALF,
                exp_amt: HALF,
                state: InternalMoogFilterState::new(),
            },
        }
    }

    /// The name of this kind of module.
    pub fn get_name() -> (name: String)
        ensures
            name@ == "Moog Filter"@,
    {
        "Moog Filter".to_owned()
    }

    /// What the filter is set to, and the memory of its ladder.
    pub closed spec fn settings(&self) -> MoogFilterSettings {
        self.set
    }

    /// What the filter is set to, and the memory of its ladder.
    pub fn settings_ref(&self) -> (state: &MoogFilterSettings)
        ensures
            *state == self.settings(),
    {
        &self.set
    }

    /// What the filter is set to, and the memory of its ladder, to be changed.
    pub fn settings_mut(&mut self) -> (state: &mut MoogFilterSettings)
        ensures
            *state == old(self).settings(),
            final(self).settings() == *final(state),
            final(self).bay() == old(self).bay(),
            final(self).wf() == old(self).wf(),
    {
        &mut self.set
    }
}

impl MoogFilterSettings {
    /// One sample takes the filter from `self` to `after` and puts out the
    /// three samples: `ladder` computes them, and the new memory of the
    /// ladder, from the settings and the two input samples.
    pub open spec fn filters_to<
        L: Fn(MoogFilterSettings, ControlVoltage, ControlVoltage) -> (
            InternalMoogFilterState,
            ControlVoltage,
            ControlVoltage,
            ControlVoltage,
        ),
    >(
        &self,
        audio: ControlVoltage,
        cv: ControlVoltage,
        after: MoogFilterSettings,
        lowpass: ControlVoltage,
        highpass: ControlVoltage,
        bandpass: ControlVoltage,
        ladder: L,
    ) -> bool {
        &&& call_ensures(ladder, (*self, audio, cv), (after.state, lowpass, highpass, bandpass))
        &&& after == MoogFilterSettings { state: after.state, ..*self }
    }

    /// The filter passes through the states of `trace`, one for each sample
    /// of the block, and puts out the samples of the three blocks.
    pub open spec fn runs<
        L: Fn(MoogFilterSettings, ControlVoltage, ControlVoltage) -> (
            InternalMoogFilterState,
            ControlVoltage,
            ControlVoltage,
            ControlVoltage,
        ),
    >(
        trace: Seq<MoogFilterSettings>,
        audio: Option<Seq<ControlVoltage>>,
        cv: Option<Seq<ControlVoltage>>,
        lowpass: Seq<ControlVoltage>,
        bandpass: Seq<ControlVoltage>,
        highpass: Seq<ControlVoltage>,
        ladder: L,
    ) -> bool {
        &&& trace.len() == lowpass.len() + 1
        &&& bandpass.len() == lowpass.len()
        &&& highpass.len() == lowpass.len()
        &&& forall|i: int|
            0 <= i < lowpass.len() ==> (#[trigger] trace[i]).filters_to(
                sample_at(audio, i),
                sample_at(cv, i),
                trace[i + 1],
                lowpass[i],
                highpass[i],
                bandpass[i],
                ladder,
            )
    }
}

impl MoogFilterModule {
    /// The filter has computed one block since it was `before`, from the
    /// blocks its inputs read: sample by sample, `ladder` gave the next
    /// state of the filter and the low-pass, band-pass and high-pass
    /// samples.
    pub open spec fn computed<
        L: Fn(MoogFilterSettings, ControlVoltage, ControlVoltage) -> (
            InternalMoogFilterState,
            ControlVoltage,
            ControlVoltage,
            ControlVoltage,
        ),
    >(
        &self,
        before: Self,
        audio_in: Option<Seq<ControlVoltage>>,
        cv_in: Option<Seq<ControlVoltage>>,
        ladder: L,
    ) -> bool {
        &&& self.bay().ident() == before.bay().ident()
        &&& self.bay().inputs() == before.bay().inputs()
        &&& same_shape(self.bay(), before.bay())
        &&& exists|trace: Seq<MoogFilterSettings>|
            {
                &&& #[trigger] MoogFilterSettings::runs(
                    trace,
                    audio_in,
                    cv_in,
                    self.bay().outputs()[0]->0,
                    self.bay().outputs()[1]->0,
                    self.bay().outputs()[2]->0,
                    ladder,
                )
                &&& trace[0] == before.settings()
                &&& trace.last() == self.settings()
            }
    }

    /// Computes one block. `ladder` computes, from the settings, the audio
    /// sample and the control sample, the new memory of the ladder and the
    /// low-pass, high-pass and band-pass samples.
    pub fn calc<
        L: Fn(MoogFilterSettings, ControlVoltage, ControlVoltage) -> (
            InternalMoogFilterState,
            ControlVoltage,
            ControlVoltage,
            ControlVoltage,
        ),
    >(
        &mut self,
        audio_in: &AudioBuffer,
        cv_in: &AudioBuffer,
        ladder: &L,
    )
        requires
            old(self).wf(),
            forall|set: MoogFilterSettings, audio: ControlVoltage, cv: ControlVoltage|
                call_requires(*ladder, (set, audio, cv)),
        ensures
            final(self).wf(),
            final(self).computed(*old(self), audio_in@, cv_in@, *ladder),
    {
        let ghost old_bay = self.bay;
        assert(all_present(self.bay.outputs()));
        assert(self.bay.outputs()[1] is Some && self.bay.outputs()[2] is Some);
        let mut lowpass = self.bay.take_output(0).unwrap();
        let mut bandpass = self.bay.take_output(1).unwrap();
        let mut highpass = self.bay.take_output(2).unwrap();
        let ghost taken_bay = self.bay;
        let audio_block = audio_in.get();
        let cv_block = cv_in.get();
        let n = lowpass.len();
        let ghost mut trace: Seq<MoogFilterSettings> = seq![self.set];
        let mut idx: usize = 0;
        while idx < n
            invariant
                self.bay == taken_bay,
                idx <= n,
                n == lowpass.len(),
                n == bandpass.len(),
                n == highpass.len(),
                match audio_block {
                    Some(v) => audio_in@ == Some(v@),
                    None => audio_in@ is None,
                },
                match cv_block {
                    Some(v) => cv_in@ == Some(v@),
                    None => cv_in@ is None,
                },
                forall|set: MoogFilterSettings, audio: ControlVoltage, cv: ControlVoltage|
                    call_requires(*ladder, (set, audio, cv)),
                trace.len() == idx + 1,
                trace[0] == old(self).set,
                trace.last() == self.set,
                forall|i: int|
                    0 <= i < idx ==> (#[trigger] trace[i]).filters_to(
                        sample_at(audio_in@, i),
                        sample_at(cv_in@, i),
                        trace[i + 1],
                        lowpass[i],
                        highpass[i],
                        bandpass[i],
                        *ladder,
                    ),
            decreases n - idx,
        {
            let audio = read_sample(audio_block, idx);
            let cv = read_sample(cv_block, idx);
            let ghost before = self.set;
            let (state, low, high, band) = ladder(self.set, audio, cv);
            self.set.state = state;
            lowpass.set(idx, low);
            highpass.set(idx, high);
            bandpass.set(idx, band);
            proof {
                assert(before.filters_to(audio, cv, self.set, low, high, band, *ladder));
                trace = trace.push(self.set);
            }
            idx += 1;
        }
        self.bay.put_output(0, lowpass);
        self.bay.put_output(1, bandpass);
        self.bay.put_output(2, highpass);
        proof {
            assert(self.bay.outputs() =~= old_bay.outputs().update(0, Some(lowpass@)).update(
                1,
                Some(bandpass@),
            ).update(2, Some(highpass@)));
            assert(MoogFilterSettings::runs(
                trace,
                audio_in@,
                cv_in@,
                self.bay().outputs()[0]->0,
                self.bay().outputs()[1]->0,
                self.bay().outputs()[2]->0,
                *ladder,
            ));
            assert(trace[0] == old(self).settings());
            assert(trace.last() == self.settings());
        }
    }
}

impl SynthModule for MoogFilterModule {
    closed spec fn bay(&self) -> Patchbay {
        self.bay
    }

    open spec fn wf(&self) -> bool {
        &&& self.bay().wf()
        &&& self.bay().inputs().len() == 2
        &&& self.bay().outputs().len() == 3
        &&& all_present(self.bay().outputs())
    }

    open spec fn name(&self) -> Seq<char> {
        "Moog Filter"@
    }

    open spec fn input_label(&self, input_idx: int) -> Option<Seq<char>> {
        if input_idx == 0 {
            Some("Audio"@)
        } else if input_idx == 1 {
            Some("CV"@)
        } else {
            None
        }
    }

    open spec fn output_label(&self, output_idx: int) -> Option<Seq<char>> {
        None
    }

    open spec fn dirty(&self) -> bool {
        false
    }

    open spec fn same_settings(&self, other: &Self) -> bool {
        self.settings() == other.settings()
    }

    open spec fn fits(&self, audio_config: AudioConfig) -> bool {
        &&& sized(self.bay().outputs(), audio_config.buffer_size as nat)
    }

    proof fn lemma_fits(&self, other: &Self, audio_config: AudioConfig) {
        assert(other.same_settings(self) && other.bay().outputs() == self.bay().outputs()
            ==> other.fits(audio_config) == self.fits(audio_config));
    }

    proof fn lemma_settings(&self, other: &Self) {
        assert(self.same_settings(self));
        assert(other.same_settings(self) ==> other.name() == self.name());
        assert(other.same_settings(self) ==> other.dirty() == self.dirty());
        assert(forall|i: int| other.input_label(i) == self.input_label(i));
        assert(forall|i: int| other.output_label(i) == self.output_label(i));
    }

    proof fn lemma_settings_chain(&self, second: &Self, third: &Self) {
        assert(self.same_settings(second) ==> second.same_settings(self));
        assert(self.same_settings(second) && second.same_settings(third) ==> self.same_settings(
            third,
        ));
    }

    fn deep_clone(&self) -> (copy: Self) {
        Self { bay: self.bay.deep_clone(), set: self.set }
    }

    fn patchbay(&self) -> (bay: &Patchbay) {
        &self.bay
    }

    fn patchbay_mut(&mut self) -> (bay: &mut Patchbay) {
        &mut self.bay
    }

    fn get_name(&self) -> (name: String) {
        Self::get_name()
    }

    fn get_input_label(&self, input_idx: u8) -> (label: Result<Option<String>, ()>) {
        match input_idx {
            0 => Ok(Some("Audio".to_owned())),
            1 => Ok(Some("CV".to_owned())),
            _ => Err(()),
        }
    }

    fn get_output_label(&self, output_idx: u8) -> (label: Result<Option<String>, ()>) {
        match output_idx {
            0 => Ok(None),
            1 => Ok(None),
            2 => Ok(None),
            _ => Err(()),
        }
    }

    fn ui_dirty(&self) -> (dirty: bool) {
        false
    }

    fn set_audio_config(&mut self, audio_config: &AudioConfig)
        ensures
            final(self).same_settings(old(self)),
            final(self).settings() == old(self).settings(),
    {
        proof {
            lemma_resized_sized(self.bay.outputs(), audio_config.buffer_size as nat);
        }
        self.bay.resize_outputs(audio_config.buffer_size);
    }
}


/// A filter as earlier files hold it: with a low-pass output only.
#[derive(Debug)]
pub struct MoogFilterModuleV0 {
    pub id: ModuleId,
    pub freq: ControlVoltage,
    pub res: ControlVoltage,
    pub exp_amt: ControlVoltage,
    pub state: InternalMoogFilterState,
}

impl MoogFilterModule {
    /// The filter that an earlier file holds: the same filter, with the
    /// band-pass and high-pass outputs it did not have then.
    pub fn from_v0(other: MoogFilterModuleV0, audio_config: &AudioConfig) -> (module: Self)
        ensures
            module.wf(),
            module.fits(*audio_config),
            module.bay().ident() == other.id,
            module.bay().inputs() == unconnected(2),
            module.bay().outputs() == silent_blocks(3, audio_config.buffer_size as nat),
            module.settings() == (MoogFilterSettings {
                freq: other.freq,
                res: other.res,
                exp_amt: other.exp_amt,
                state: other.state,
            }),
    {
        Self::restore(
            other.id,
            MoogFilterSettings {
                freq: other.freq,
                res: other.res,
                exp_amt: other.exp_amt,
                state: other.state,
            },
            audio_config,
        )
    }
}

} // verus!
