//! The mixer.

use vstd::prelude::*;

use crate::synth::buffer::copy_of;
use crate::synth::buffer::AudioBuffer;
use crate::synth::ident::fresh_id;
use crate::synth::ident::ModuleId;
use crate::synth::module::all_present;
use crate::synth::module::block_len;
use crate::synth::module::lemma_resized_sized;
use crate::synth::module::same_shape;
use crate::synth::module::sized;
use crate::synth::module::unconnected;
use crate::synth::module::SynthModule;
use crate::synth::patchbay::blocks_of;
use crate::synth::patchbay::silent_blocks;
use crate::synth::patchbay::Patchbay;
use crate::synth::AudioConfig;
use crate::synth::ControlVoltage;
use crate::synth::SILENCE;
use crate::synth::UNITY;

verus! {

/// The number of inputs of a mixer.
pub const MIXER_INPUTS: u8 = 4;

/// Sums four inputs, each with a gain of its own, into one output.
#[derive(Debug)]
pub struct MonoMixerModule {
    bay: Patchbay,
    gain: Vec<ControlVoltage>,
}

impl MonoMixerModule {
    /// A mixer with the given identity and gains, its output silent. An
    /// error unless there are four gains.
    pub fn restore(id: ModuleId, gain: Vec<ControlVoltage>, audio_config: &AudioConfig) -> (restored:
        Result<Self, ()>)
        ensures
            restored is Ok <==> gain.len() == 4,
            restored matches Ok(module) ==> {
                &&& module.wf()
                &&& module.fits(*audio_config)
                &&& module.bay().ident() == id
                &&& module.bay().inputs() == unconnected(4)
                &&& module.bay().outputs() == silent_blocks(1, audio_config.buffer_size as nat)
                &&& module.gains() == gain@
            },
    {
        if gain.len() != 4 {
            return Err(());
        }
        let bay = Patchbay::new(id, MIXER_INPUTS, 1, audio_config.buffer_size);
        assert(all_present(bay.outputs()));
        Ok(Self { bay, gain })
    }

    /// A fresh mixer: every gain 1.
    pub fn new(audio_config: &AudioConfig) -> (module: Self)
        ensures
            module.wf(),
            module.fits(*audio_config),
            module.bay().inputs() == unconnected(4),
            module.bay().outputs() == silent_blocks(1, audio_config.buffer_size as nat),
            module.gains() == Seq::new(4, |k: int| UNITY),
    {
        let bay = Patchbay::new(fresh_id(), MIXER_INPUTS, 1, audio_config.buffer_size);
        assert(all_present(bay.outputs()));
        let mut gain: Vec<ControlVoltage> = Vec::with_capacity(4);
        gain.push(UNITY);
        gain.push(UNITY);
        gain.push(UNITY);
        gain.push(UNITY);
        assert(gain@ =~= Seq::new(4, |k: int| UNITY));
        Self { bay, gain }
    }

    /// The name of this kind of module.
    pub fn get_name() -> (name: String)
        ensures
            name@ == "Mono Mixer"@,
    {
        "Mono Mixer".to_owned()
    }

    /// The gains, one for each input.
    pub closed spec fn gains(&self) -> Seq<ControlVoltage> {
        self.gain@
    }

    /// The gain of input `input_idx`; an error if there is no such input.
    pub fn get_gain(&self, input_idx: u8) -> (gain: Result<ControlVoltage, ()>)
        ensures
            gain == if input_idx < self.gains().len() {
                Ok::<ControlVoltage, ()>(self.gains()[input_idx as int])
            } else {
                Err(())
            },
    {
        if (input_idx as usize) < self.gain.len() {
            Ok(self.gain[input_idx as usize])
        } else {
            Err(())
        }
    }

    /// Sets the gain of input `input_idx`; an error, and no change, if
    /// there is no such input.
    pub fn set_gain(&mut self, input_idx: u8, gain: ControlVoltage) -> (done: Result<(), ()>)
        ensures
            done is Ok <==> input_idx < old(self).gains().len(),
            final(self).gains() == if input_idx < old(self).gains().len() {
                old(self).gains().update(input_idx as int, gain)
            } else {
                old(self).gains()
            },
            final(self).bay() == old(self).bay(),
            final(self).wf() == old(self).wf(),
    {
        if (input_idx as usize) < self.gain.len() {
            self.gain.set(input_idx as usize, gain);
            Ok(())
        } else {
            Err(())
        }
    }
}

/// Input `k` takes the sum at sample `i` from `prev` to `acc`: where the
/// input has a sample, `mix` adds it, scaled by the input's gain; where it
/// has none, the sum stays.
pub open spec fn mix_step<M: Fn(ControlVoltage, ControlVoltage, ControlVoltage) -> ControlVoltage>(
    inputs: Seq<Option<Seq<ControlVoltage>>>,
    gains: Seq<ControlVoltage>,
    i: int,
    k: int,
    prev: ControlVoltage,
    acc: ControlVoltage,
    mix: M,
) -> bool {
    if 0 <= k < inputs.len() && inputs[k] is Some && 0 <= i < inputs[k]->0.len() {
        call_ensures(mix, (prev, inputs[k]->0[i], gains[k]), acc)
    } else {
        acc == prev
    }
}

/// `sums` are the sums at sample `i`: `sums[0]` is silence, and `sums[k +
/// 1]` is `sums[k]` with input `k` taken in; the last is the mix of all
/// inputs.
pub open spec fn mixed<M: Fn(ControlVoltage, ControlVoltage, ControlVoltage) -> ControlVoltage>(
    inputs: Seq<Option<Seq<ControlVoltage>>>,
    gains: Seq<ControlVoltage>,
    i: int,
    sums: Seq<ControlVoltage>,
    mix: M,
) -> bool {
    &&& sums.len() == gains.len() + 1
    &&& sums[0] == SILENCE
    &&& forall|k: int|
        0 <= k < gains.len() ==> mix_step(inputs, gains, i, k, #[trigger] sums[k], sums[k + 1], mix)
}

/// `out` is the mix of all inputs at sample `i`.
pub open spec fn mixes_to<M: Fn(ControlVoltage, ControlVoltage, ControlVoltage) -> ControlVoltage>(
    inputs: Seq<Option<Seq<ControlVoltage>>>,
    gains: Seq<ControlVoltage>,
    i: int,
    out: ControlVoltage,
    mix: M,
) -> bool {
    exists|sums: Seq<ControlVoltage>| #[trigger]
        mixed(inputs, gains, i, sums, mix) && sums.last() == out
}

impl MonoMixerModule {
    /// The mixer has computed one block since it was `before`, from the
    /// blocks its inputs read: each sample of the output is the sum of the
    /// samples of the inputs, each scaled by its gain.
    pub open spec fn computed<M: Fn(ControlVoltage, ControlVoltage, ControlVoltage) -> ControlVoltage>(
        &self,
        before: Self,
        inputs: Seq<Option<Seq<ControlVoltage>>>,
        mix: M,
    ) -> bool {
        &&& self.bay().ident() == before.bay().ident()
        &&& self.bay().inputs() == before.bay().inputs()
        &&& self.gains() == before.gains()
        &&& same_shape(self.bay(), before.bay())
        &&& forall|i: int|
            0 <= i < block_len(self.bay().outputs()[0]) ==> #[trigger] mixes_to(
                inputs,
                before.gains(),
                i,
                self.bay().outputs()[0]->0[i],
                mix,
            )
    }

    /// Computes one block. `inputs` holds the blocks the four inputs read,
    /// in their order; `mix` adds a sample, scaled by a gain, to a sum.
    pub fn calc<M: Fn(ControlVoltage, ControlVoltage, ControlVoltage) -> ControlVoltage>(
        &mut self,
        inputs: &Vec<AudioBuffer>,
        mix: &M,
    )
        requires
            old(self).wf(),
            forall|acc: ControlVoltage, src: ControlVoltage, gain: ControlVoltage|
                call_requires(*mix, (acc, src, gain)),
        ensures
            final(self).wf(),
            final(self).computed(*old(self), blocks_of(inputs@), *mix),
    {
        let ghost read = blocks_of(inputs@);
        assert(all_present(self.bay.outputs()));
        let mut output = self.bay.take_output(0).unwrap();
        let ghost len = output.len();
        let mut idx: usize = 0;
        while idx < output.len()
            invariant
                idx <= output.len(),
                output.len() == len,
                forall|i: int| 0 <= i < idx ==> output[i] == SILENCE,
            decreases output.len() - idx,
        {
            output.set(idx, SILENCE);
            idx += 1;
        }
        let ghost mut stages: Seq<Seq<ControlVoltage>> = seq![output@];
        let mut k: usize = 0;
        while k < self.gain.len()
            invariant
                k <= self.gain.len(),
                self.gain.len() == 4,
                output.len() == len,
                read == blocks_of(inputs@),
                forall|acc: ControlVoltage, src: ControlVoltage, gain: ControlVoltage|
                    call_requires(*mix, (acc, src, gain)),
                stages.len() == k + 1,
                stages[k as int] == output@,
                forall|s: int| 0 <= s <= k ==> (#[trigger] stages[s]).len() == len,
                forall|i: int| 0 <= i < len ==> stages[0][i] == SILENCE,
                forall|s: int, i: int|
                    0 <= s < k && 0 <= i < len ==> mix_step(
                        read,
                        self.gain@,
                        i,
                        s,
                        #[trigger] stages[s][i],
                        stages[s + 1][i],
                        *mix,
                    ),
            decreases self.gain.len() - k,
        {
            let gain = self.gain[k];
            let source = if k < inputs.len() {
                inputs[k].get()
            } else {
                None
            };
            let ghost before = output@;
            match source {
                Some(samples) => {
                    assert(read[k as int] == Some(samples@));
                    let limit = if samples.len() < output.len() {
                        samples.len()
                    } else {
                        output.len()
                    };
                    let mut i: usize = 0;
                    while i < limit
                        invariant
                            i <= limit,
                            limit <= output.len(),
                            limit <= samples.len(),
                            output.len() == len,
                            before.len() == len,
                            k < 4,
                            self.gain.len() == 4,
                            k < read.len(),
                            read[k as int] == Some(samples@),
                            gain == self.gain@[k as int],
                            forall|acc: ControlVoltage, src: ControlVoltage, gain: ControlVoltage|
                                call_requires(*mix, (acc, src, gain)),
                            forall|j: int|
                                0 <= j < i ==> mix_step(
                                    read,
                                    self.gain@,
                                    j,
                                    k as int,
                                    before[j],
                                    #[trigger] output[j],
                                    *mix,
                                ),
                            forall|j: int| i <= j < len ==> output[j] == before[j],
                        decreases limit - i,
                    {
                        let sum = mix(output[i], samples[i], gain);
                        output.set(i, sum);
                        i += 1;
                    }
                    assert forall|j: int| 0 <= j < len implies mix_step(
                        read,
                        self.gain@,
                        j,
                        k as int,
                        before[j],
                        #[trigger] output[j],
                        *mix,
                    ) by {
                        if j >= limit {
                            assert(output[j] == before[j]);
                            assert(j >= samples.len());
                        }
                    }
                },
                None => {
                    assert forall|j: int| 0 <= j < len implies mix_step(
                        read,
                        self.gain@,
                        j,
                        k as int,
                        before[j],
                        #[trigger] output[j],
                        *mix,
                    ) by {
                        if k < inputs.len() {
                            assert(read[k as int] is None);
                        }
                    }
                },
            }
            proof {
                let grown = stages.push(output@);
                assert forall|s: int, i: int| 0 <= s < k + 1 && 0 <= i < len implies mix_step(
                    read,
                    self.gain@,
                    i,
                    s,
                    #[trigger] grown[s][i],
                    grown[s + 1][i],
                    *mix,
                ) by {
                    if s < k {
                        assert(grown[s] == stages[s]);
                        assert(grown[s + 1] == stages[s + 1]);
                        assert(mix_step(read, self.gain@, i, s, stages[s][i], stages[s + 1][i], *mix));
                    } else {
                        assert(grown[s] == before);
                        assert(mix_step(read, self.gain@, i, k as int, before[i], output[i], *mix));
                    }
                }
                stages = grown;
            }
            k += 1;
        }
        self.bay.put_output(0, output);
        proof {
            assert(self.bay.outputs()[0] == Some(output@));
            assert forall|i: int| 0 <= i < len implies #[trigger] mixes_to(
                read,
                self.gain@,
                i,
                output[i],
                *mix,
            ) by {
                let sums = Seq::new(5, |s: int| stages[s][i]);
                assert forall|s: int| 0 <= s < 4 implies mix_step(
                    read,
                    self.gain@,
                    i,
                    s,
                    #[trigger] sums[s],
                    sums[s + 1],
                    *mix,
                ) by {
                    assert(mix_step(read, self.gain@, i, s, stages[s][i], stages[s + 1][i], *mix));
                }
                assert(mixed(read, self.gain@, i, sums, *mix));
                assert(sums.last() == output[i]);
            }
        }
    }
}

impl SynthModule for MonoMixerModule {
    closed spec fn bay(&self) -> Patchbay {
        self.bay
    }

    open spec fn wf(&self) -> bool {
        &&& self.bay().wf()
        &&& self.bay().inputs().len() == 4
        &&& self.bay().outputs().len() == 1
        &&& all_present(self.bay().outputs())
        &&& self.gains().len() == 4
    }

    open spec fn name(&self) -> Seq<char> {
        "Mono Mixer"@
    }

    open spec fn input_label(&self, input_idx: int) -> Option<Seq<char>> {
        None
    }

    open spec fn output_label(&self, output_idx: int) -> Option<Seq<char>> {
        None
    }

    open spec fn dirty(&self) -> bool {
        false
    }

    open spec fn same_settings(&self, other: &Self) -> bool {
        self.gains() == other.gains()
    }

    open spec fn fits(&self, audio_config: AudioConfig) -> bool {
        &&& sized(self.bay().outputs(), audio_config.buffer_size as nat)
    }

    proof fn lemma_fits(&self, other: &Self, audio_config: AudioConfig) {
        assert(other.same_settings(self) && other.bay().outputs() == self.bay().outputs()
            ==> other.fits(audio_config) == self.fits(audio_config));
    }

    proof fn lemma_settings(&self, other: &Self) {
        assert(self.same_settings(self));
        assert(other.same_settings(self) ==> other.name() == self.name());
        assert(other.same_settings(self) ==> other.dirty() == self.dirty());
        assert(forall|i: int| other.input_label(i) == self.input_label(i));
        assert(forall|i: int| other.output_label(i) == self.output_label(i));
    }

    proof fn lemma_settings_chain(&self, second: &Self, third: &Self) {
        assert(self.same_settings(second) ==> second.same_settings(self));
        assert(self.same_settings(second) && second.same_settings(third) ==> self.same_settings(
            third,
        ));
    }

    fn deep_clone(&self) -> (copy: Self) {
        Self { bay: self.bay.deep_clone(), gain: copy_of(&self.gain) }
    }

    fn patchbay(&self) -> (bay: &Patchbay) {
        &self.bay
    }

    fn patchbay_mut(&mut self) -> (bay: &mut Patchbay) {
        &mut self.bay
    }

    fn get_name(&self) -> (name: String) {
        Self::get_name()
    }

    fn get_input_label(&self, input_idx: u8) -> (label: Result<Option<String>, ()>) {
        match input_idx {
            0 => Ok(None),
            1 => Ok(None),
            2 => Ok(None),
            3 => Ok(None),
            _ => Err(()),
        }
    }

    fn get_output_label(&self, output_idx: u8) -> (label: Result<Option<String>, ()>) {
        match output_idx {
            0 => Ok(None),
            _ => Err(()),
        }
    }

    fn ui_dirty(&self) -> (dirty: bool) {
        false
    }

    fn set_audio_config(&mut self, audio_config: &AudioConfig)
        ensures
            final(self).same_settings(old(self)),
    {
        proof {
            lemma_resized_sized(self.bay.outputs(), audio_config.buffer_size as nat);
        }
        self.bay.resize_outputs(audio_config.buffer_size);
    }
}

} // verus!
