//! The output module.

use vstd::prelude::*;

use crate::synth::buffer::read_sample;
use crate::synth::buffer::sample_at;
use crate::synth::buffer::AudioBuffer;
use crate::synth::ident::fresh_id;
use crate::synth::ident::ModuleId;
use crate::synth::module::all_present;
use crate::synth::module::block_len;
use crate::synth::module::lemma_resized_sized;
use crate::synth::module::sized;
use crate::synth::module::unconnected;
use crate::synth::module::SynthModule;
use crate::synth::patchbay::blocks_of;
use crate::synth::patchbay::clone_buffers;
use crate::synth::patchbay::resize_buffers;
use crate::synth::patchbay::resized_blocks;
use crate::synth::patchbay::silent_blocks;
use crate::synth::patchbay::silent_buffers;
use crate::synth::patchbay::Patchbay;
use crate::synth::AudioConfig;
use crate::synth::ControlVoltage;

verus! {

/// The terminal of a patch: one input for each channel of the device, and a
/// buffer for each that holds the block to be played.
#[derive(Debug)]
pub struct OutputModule {
    bay: Patchbay,
    bufs: Vec<AudioBuffer>,
}

impl OutputModule {
    /// An output with the given identity, as many inputs as the device has
    /// channels, and a silent block for each.
    pub fn restore(id: ModuleId, audio_config: &AudioConfig) -> (module: Self)
        ensures
            module.wf(),
            module.fits(*audio_config),
            module.bay().ident() == id,
            module.bay().inputs() == unconnected(audio_config.channels as nat),
            module.bay().outputs().len() == 0,
            module.blocks() == silent_blocks(
                audio_config.channels as nat,
                audio_config.buffer_size as nat,
            ),
    {
        let bay = Patchbay::new(id, audio_config.channels, 0, audio_config.buffer_size);
        let bufs = silent_buffers(
            audio_config.channels as usize,
            audio_config.buffer_size,
        );
        assert(all_present(bay.outputs()));
        assert(all_present(blocks_of(bufs@)));
        OutputModule { bay, bufs }
    }

    /// A fresh output with as many inputs as the device has channels, and a
    /// silent block for each.
    pub fn new(audio_config: &AudioConfig) -> (module: Self)
        ensures
            module.wf(),
            module.fits(*audio_config),
            module.bay().inputs() == unconnected(audio_config.channels as nat),
            module.bay().outputs().len() == 0,
            module.blocks() == silent_blocks(
                audio_config.channels as nat,
                audio_config.buffer_size as nat,
            ),
    {
        let bay = Patchbay::new(fresh_id(), audio_config.channels, 0, audio_config.buffer_size);
        let bufs = silent_buffers(
            audio_config.channels as usize,
            audio_config.buffer_size,
        );
        assert(all_present(bay.outputs()));
        assert(all_present(blocks_of(bufs@)));
        OutputModule { bay, bufs }
    }

    /// The name of this kind of module.
    pub fn get_name() -> (name: String)
        ensures
            name@ == "Output"@,
    {
        "Output".to_owned()
    }

    /// The blocks to be played, one for each channel.
    pub closed spec fn blocks(&self) -> Seq<Option<Seq<ControlVoltage>>> {
        blocks_of(self.bufs@)
    }

    /// A valid output has a channel for each input, at most 255.
    pub proof fn lemma_channels(&self)
        requires
            self.wf(),
        ensures
            self.blocks().len() == self.bay().inputs().len(),
            self.blocks().len() <= 255,
    {
    }

    /// The buffer of channel `channel`; an error if there is no such
    /// channel.
    pub fn get_buf(&self, channel: u8) -> (buffer: Result<&AudioBuffer, ()>)
        ensures
            buffer is Ok <==> channel < self.blocks().len(),
            buffer matches Ok(b) ==> b@ == self.blocks()[channel as int],
    {
        if (channel as usize) < self.bufs.len() {
            Ok(&self.bufs[channel as usize])
        } else {
            Err(())
        }
    }
}

impl OutputModule {
    /// The module has computed one block since it was `before`, from the
    /// blocks its inputs read: each channel holds a copy of what its input
    /// reads, and silence where that is nothing or ends early.
    pub open spec fn computed(
        &self,
        before: Self,
        inputs: Seq<Option<Seq<ControlVoltage>>>,
    ) -> bool {
        &&& self.bay() == before.bay()
        &&& self.blocks().len() == before.blocks().len()
        &&& forall|c: int|
            0 <= c < self.blocks().len() ==> {
                let block = (#[trigger] self.blocks()[c])->0;
                &&& self.blocks()[c] is Some
                &&& block.len() == block_len(before.blocks()[c])
                &&& forall|i: int|
                    0 <= i < block.len() ==> #[trigger] block[i] == sample_at(
                        if c < inputs.len() {
                            inputs[c]
                        } else {
                            None
                        },
                        i,
                    )
            }
    }

    /// Computes one block: copies what each input reads into the buffer of
    /// its channel. `inputs` holds the blocks the inputs read, in their
    /// order. Where an input is not connected, or its block ends early,
    /// the channel gets silence.
    pub fn calc(
        &mut self,
        inputs: &Vec<AudioBuffer>,
    )
        requires
            old(self).wf(),
        ensures
            final(self).wf(),
            final(self).computed(*old(self), blocks_of(inputs@)),
    {
        let ghost before = blocks_of(self.bufs@);
        let mut c: usize = 0;
        while c < self.bufs.len()
            invariant
                c <= self.bufs.len(),
                self.bay == old(self).bay,
                self.bufs.len() == old(self).bufs.len(),
                before == blocks_of(old(self).bufs@),
                all_present(before),
                forall|k: int| c <= k < self.bufs.len() ==> (#[trigger] self.bufs[k])@ == before[k],
                forall|k: int|
                    0 <= k < c ==> {
                        let block = (#[trigger] self.bufs[k])@->0;
                        &&& self.bufs[k]@ is Some
                        &&& block.len() == block_len(before[k])
                        &&& forall|i: int|
                            0 <= i < block.len() ==> #[trigger] block[i] == sample_at(
                                if k < inputs.len() {
                                    inputs[k]@
                                } else {
                                    None
                                },
                                i,
                            )
                    },
            decreases self.bufs.len() - c,
        {
            assert(before[c as int] is Some);
            let mut block = self.bufs[c].take().unwrap();
            let source = if c < inputs.len() {
                inputs[c].get()
            } else {
                None
            };
            let ghost read = if c < inputs.len() {
                inputs[c as int]@
            } else {
                None
            };
            let mut i: usize = 0;
            while i < block.len()
                invariant
                    i <= block.len(),
                    block.len() == block_len(before[c as int]),
                    match source {
                        Some(v) => read == Some(v@),
                        None => read is None,
                    },
                    forall|j: int| 0 <= j < i ==> #[trigger] block[j] == sample_at(read, j),
                decreases block.len() - i,
            {
                block.set(i, read_sample(source, i));
                i += 1;
            }
            self.bufs[c].put(Some(block));
            c += 1;
        }
        proof {
            assert forall|k: int| 0 <= k < self.bufs.len() implies (#[trigger] blocks_of(
                self.bufs@,
            )[k]) is Some && block_len(blocks_of(self.bufs@)[k]) == block_len(
                blocks_of(self.bufs@)[0],
            ) by {
                assert(self.bufs[k]@ is Some);
                assert(self.bufs[0]@ is Some);
                assert(before[k] is Some);
            }
        }
    }
}

impl SynthModule for OutputModule {
    closed spec fn bay(&self) -> Patchbay {
        self.bay
    }

    open spec fn wf(&self) -> bool {
        &&& self.bay().wf()
        &&& self.bay().outputs().len() == 0
        &&& self.blocks().len() == self.bay().inputs().len()
        &&& all_present(self.blocks())
    }

    open spec fn name(&self) -> Seq<char> {
        "Output"@
    }

    open spec fn input_label(&self, input_idx: int) -> Option<Seq<char>> {
        None
    }

    open spec fn output_label(&self, output_idx: int) -> Option<Seq<char>> {
        None
    }

    open spec fn dirty(&self) -> bool {
        false
    }

    open spec fn same_settings(&self, other: &Self) -> bool {
        self.blocks() == other.blocks()
    }

    open spec fn fits(&self, audio_config: AudioConfig) -> bool {
        &&& sized(self.bay().outputs(), audio_config.buffer_size as nat)
        &&& sized(self.blocks(), audio_config.buffer_size as nat)
    }

    proof fn lemma_fits(&self, other: &Self, audio_config: AudioConfig) {
        assert(other.same_settings(self) && other.bay().outputs() == self.bay().outputs()
            ==> other.fits(audio_config) == self.fits(audio_config));
    }

    proof fn lemma_settings(&self, other: &Self) {
        assert(self.same_settings(self));
        assert(other.name() == self.name());
        assert(other.dirty() == self.dirty());
        assert(forall|i: int| other.input_label(i) == self.input_label(i));
        assert(forall|i: int| other.output_label(i) == self.output_label(i));
        if other.same_settings(self) {
            assert(blocks_of(other.bufs@).len()
                == blocks_of(self.bufs@).len());
        }
    }

    proof fn lemma_settings_chain(&self, second: &Self, third: &Self) {
        assert(self.same_settings(second) ==> second.same_settings(self));
        assert(self.same_settings(second) && second.same_settings(third) ==> self.same_settings(
            third,
        ));
    }

    fn deep_clone(&self) -> (copy: Self) {
        Self { bay: self.bay.deep_clone(), bufs: clone_buffers(&self.bufs) }
    }

    fn patchbay(&self) -> (bay: &Patchbay) {
        &self.bay
    }

    fn patchbay_mut(&mut self) -> (bay: &mut Patchbay) {
        &mut self.bay
    }

    fn get_name(&self) -> (name: String) {
        Self::get_name()
    }

    fn get_input_label(&self, input_idx: u8) -> (label: Result<Option<String>, ()>) {
        if input_idx < self.bay.get_num_inputs() {
            Ok(None)
        } else {
            Err(())
        }
    }

    fn get_output_label(&self, output_idx: u8) -> (label: Result<Option<String>, ()>) {
        Err(())
    }

    fn ui_dirty(&self) -> (dirty: bool) {
        false
    }

    fn set_audio_config(&mut self, audio_config: &AudioConfig)
        ensures
            final(self).blocks() == resized_blocks(
                old(self).blocks(),
                audio_config.buffer_size as nat,
            ),
    {
        proof {
            lemma_resized_sized(self.bay.outputs(), audio_config.buffer_size as nat);
            lemma_resized_sized(
                blocks_of(self.bufs@),
                audio_config.buffer_size as nat,
            );
        }
        self.bay.resize_outputs(audio_config.buffer_size);
        resize_buffers(&mut self.bufs, audio_config.buffer_size);
    }
}

} // verus!
