//! The voltage-controlled amplifier: the audio input scaled by the control
//! input, sample by sample.

use vstd::prelude::*;

use crate::synth::above_threshold;
use crate::synth::buffer::AudioBuffer;
use crate::synth::ident::fresh_id;
use crate::synth::ident::ModuleId;
use crate::synth::module::all_present;
use crate::synth::module::lemma_resized_sized;
use crate::synth::module::sized;
use crate::synth::module::unconnected;
use crate::synth::module::SynthModule;
use crate::synth::patchbay::silent_blocks;
use crate::synth::patchbay::Patchbay;
use crate::synth::AudioConfig;
use crate::synth::ControlVoltage;
use crate::synth::SILENCE;
use crate::synth::TransitionDetector;

verus! {

/// An amplifier whose gain is a signal.
#[derive(Debug)]
pub struct VCAModule {
    bay: Patchbay,
    negative: bool,
}

/// What the amplifier writes at sample `i`: the product of the two inputs
/// where the control input is above zero or negative gain is let through,
/// silence elsewhere; where an input block ends early, what was there.
pub open spec fn vca_sample<F: Fn(ControlVoltage, ControlVoltage) -> ControlVoltage>(
    audio: Seq<ControlVoltage>,
    cv: Seq<ControlVoltage>,
    negative: bool,
    before: ControlVoltage,
    multiply: F,
    i: int,
    out: ControlVoltage,
) -> bool {
    if i < audio.len() && i < cv.len() {
        if negative || above_threshold(cv[i]) {
            call_ensures(multiply, (audio[i], cv[i]), out)
        } else {
            out == SILENCE
        }
    } else {
        out == before
    }
}

impl VCAModule {
    /// An amplifier with the given identity and setting, its output
    /// silent.
    pub fn restore(id: ModuleId, negative: bool, audio_config: &AudioConfig) -> (module: Self)
        ensures
            module.wf(),
            module.fits(*audio_config),
            module.bay().ident() == id,
            module.bay().inputs() == unconnected(2),
            module.bay().outputs() == silent_blocks(
                1,
                audio_config.buffer_size as nat,
            ),
            module.negative() == negative,
    {
        let bay = Patchbay::new(id, 2, 1, audio_config.buffer_size);
        assert(all_present(bay.outputs()));
        Self { bay, negative }
    }

    /// A fresh amplifier: two inputs, not connected, one silent output, and
    /// negative gain shut out.
    pub fn new(audio_config: &AudioConfig) -> (module: Self)
        ensures
            module.wf(),
            module.fits(*audio_config),
            module.bay().inputs() == unconnected(2),
            module.bay().outputs() == silent_blocks(
                1,
                audio_config.buffer_size as nat,
            ),
            !module.negative(),
    {
        Self { bay: Patchbay::new(fresh_id(), 2, 1, audio_config.buffer_size), negative: false }
    }

    /// The name of this kind of module.
    pub fn get_name() -> (name: String)
        ensures
            name@ == "VCA"@,
    {
        "VCA".to_owned()
    }

    /// Whether a control input at or below zero lets the signal through,
    /// scaled by it.
    pub closed spec fn negative(&self) -> bool {
        self.negative
    }

    /// Whether a control input at or below zero lets the signal through.
    pub fn is_negative(&self) -> (negative: bool)
        ensures
            negative == self.negative(),
    {
        self.negative
    }

    /// Lets a control input at or below zero through, or shuts it out.
    pub fn set_negative(&mut self, negative: bool)
        ensures
            final(self).negative() == negative,
            final(self).bay() == old(self).bay(),
            final(self).wf() == old(self).wf(),
    {
        self.negative = negative;
    }

    /// The amplifier has computed one block since it was `before`, from the
    /// blocks its inputs read.
    ///
    /// With both inputs connected, each sample of the output is the product
    /// of the audio and control samples where the control sample is above
    /// zero (or negative gain is let through), and silence elsewhere. With
    /// an input not connected the whole block is silence.
    pub open spec fn computed<F: Fn(ControlVoltage, ControlVoltage) -> ControlVoltage>(
        &self,
        before: Self,
        audio_in: Option<Seq<ControlVoltage>>,
        cv_in: Option<Seq<ControlVoltage>>,
        multiply: F,
    ) -> bool {
        &&& self.negative() == before.negative()
        &&& self.bay().ident() == before.bay().ident()
        &&& self.bay().inputs() == before.bay().inputs()
        &&& self.bay().outputs().len() == 1
        &&& self.bay().outputs()[0] is Some
        &&& self.bay().outputs()[0]->0.len() == before.bay().outputs()[0]->0.len()
        &&& audio_in is None || cv_in is None ==> forall|i: int|
            0 <= i < self.bay().outputs()[0]->0.len() ==> (#[trigger] self.bay().outputs()[0]->0[i])
                == SILENCE
        &&& audio_in is Some && cv_in is Some ==> forall|i: int|
            0 <= i < self.bay().outputs()[0]->0.len() ==> vca_sample(
                audio_in->0,
                cv_in->0,
                before.negative(),
                before.bay().outputs()[0]->0[i],
                multiply,
                i,
                #[trigger] self.bay().outputs()[0]->0[i],
            )
    }

    /// Computes one block. `multiply` multiplies two samples.
    pub fn calc<F: Fn(ControlVoltage, ControlVoltage) -> ControlVoltage>(
        &mut self,
        audio_in: &AudioBuffer,
        cv_in: &AudioBuffer,
        multiply: &F,
    )
        requires
            old(self).wf(),
            forall|a: ControlVoltage, c: ControlVoltage| call_requires(*multiply, (a, c)),
        ensures
            final(self).wf(),
            final(self).computed(*old(self), audio_in@, cv_in@, *multiply),
    {
        let ghost before = old(self).bay().outputs()[0]->0;
        let taken = self.bay.take_output(0);
        let mut output = taken.unwrap();
        match (audio_in.get(), cv_in.get()) {
            (Some(audio), Some(cv)) => {
                let mut idx: usize = 0;
                while idx < output.len() && idx < audio.len() && idx < cv.len()
                    invariant
                        idx <= output.len(),
                        output.len() == before.len(),
                        forall|a: ControlVoltage, c: ControlVoltage| call_requires(*multiply, (a, c)),
                        forall|i: int|
                            0 <= i < idx ==> vca_sample(
                                audio@,
                                cv@,
                                self.negative,
                                before[i],
                                *multiply,
                                i,
                                #[trigger] output[i],
                            ),
                        forall|i: int| idx <= i < output.len() ==> output[i] == before[i],
                    decreases output.len() - idx,
                {
                    let c = cv[idx];
                    let val = if self.negative || TransitionDetector::is_above_threshold(&c) {
                        multiply(audio[idx], c)
                    } else {
                        SILENCE
                    };
                    output.set(idx, val);
                    idx += 1;
                }
            },
            _ => {
                let mut idx: usize = 0;
                while idx < output.len()
                    invariant
                        idx <= output.len(),
                        output.len() == before.len(),
                        forall|i: int| 0 <= i < idx ==> output[i] == SILENCE,
                    decreases output.len() - idx,
                {
                    output.set(idx, SILENCE);
                    idx += 1;
                }
            },
        }
        self.bay.put_output(0, output);
        assert(final(self).bay().outputs()[0] == Some(output@));
    }
}

impl SynthModule for VCAModule {
    closed spec fn bay(&self) -> Patchbay {
        self.bay
    }

    open spec fn wf(&self) -> bool {
        &&& self.bay().wf()
        &&& self.bay().inputs().len() == 2
        &&& self.bay().outputs().len() == 1
        &&& all_present(self.bay().outputs())
    }

    open spec fn name(&self) -> Seq<char> {
        "VCA"@
    }

    open spec fn input_label(&self, input_idx: int) -> Option<Seq<char>> {
        if input_idx == 0 {
            Some("Audio"@)
        } else if input_idx == 1 {
            Some("CV"@)
        } else {
            None
        }
    }

    open spec fn output_label(&self, output_idx: int) -> Option<Seq<char>> {
        None
    }

    open spec fn dirty(&self) -> bool {
        false
    }

    open spec fn same_settings(&self, other: &Self) -> bool {
        self.negative() == other.negative()
    }

    open spec fn fits(&self, audio_config: AudioConfig) -> bool {
        &&& sized(self.bay().outputs(), audio_config.buffer_size as nat)
    }

    proof fn lemma_fits(&self, other: &Self, audio_config: AudioConfig) {
        assert(other.same_settings(self) && other.bay().outputs() == self.bay().outputs()
            ==> other.fits(audio_config) == self.fits(audio_config));
    }

    proof fn lemma_settings(&self, other: &Self) {
        assert(self.same_settings(self));
        assert(other.same_settings(self) ==> other.name() == self.name());
        assert(other.same_settings(self) ==> other.dirty() == self.dirty());
        assert(forall|i: int| other.input_label(i) == self.input_label(i));
        assert(forall|i: int| other.output_label(i) == self.output_label(i));
    }

    proof fn lemma_settings_chain(&self, second: &Self, third: &Self) {
        assert(self.same_settings(second) ==> second.same_settings(self));
        assert(self.same_settings(second) && second.same_settings(third) ==> self.same_settings(
            third,
        ));
    }

    fn deep_clone(&self) -> (copy: Self) {
        Self { bay: self.bay.deep_clone(), negative: self.negative }
    }

    fn patchbay(&self) -> (bay: &Patchbay) {
        &self.bay
    }

    fn patchbay_mut(&mut self) -> (bay: &mut Patchbay) {
        &mut self.bay
    }

    fn get_name(&self) -> (name: String) {
        Self::get_name()
    }

    fn get_input_label(&self, input_idx: u8) -> (label: Result<Option<String>, ()>) {
        match input_idx {
            0 => Ok(Some("Audio".to_owned())),
            1 => Ok(Some("CV".to_owned())),
            _ => Err(()),
        }
    }

    fn get_output_label(&self, output_idx: u8) -> (label: Result<Option<String>, ()>) {
        match output_idx {
            0 => Ok(None),
            _ => Err(()),
        }
    }

    fn ui_dirty(&self) -> (dirty: bool) {
        false
    }

    fn set_audio_config(&mut self, audio_config: &AudioConfig)
        ensures
            final(self).same_settings(old(self)),
    {
        proof {
            lemma_resized_sized(self.bay.outputs(), audio_config.buffer_size as nat);
        }
        self.bay.resize_outputs(audio_config.buffer_size);
    }
}

} // verus!
