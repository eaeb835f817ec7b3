//! The module contract: what every node of the signal graph offers.

use vstd::prelude::*;

use crate::synth::buffer::AudioBuffer;
use crate::synth::ident::uuid_text;
use crate::synth::ident::ModuleId;
use crate::synth::patchbay::connected;
use crate::synth::patchbay::disconnected;
use crate::synth::patchbay::resized_blocks;
use crate::synth::patchbay::Connection;
use crate::synth::patchbay::Patchbay;
use crate::synth::AudioConfig;
use crate::synth::ControlVoltage;

verus! {

/// The length of what a buffer holds; 0 for an empty buffer.
pub open spec fn block_len(block: Option<Seq<ControlVoltage>>) -> nat {
    match block {
        Some(samples) => samples.len(),
        None => 0,
    }
}

/// Two patchbays have the same numbers of ports, and hold blocks of the same
/// lengths in the same output buffers.
pub open spec fn same_shape(a: Patchbay, b: Patchbay) -> bool {
    &&& a.inputs().len() == b.inputs().len()
    &&& a.outputs().len() == b.outputs().len()
    &&& forall|i: int|
        0 <= i < a.outputs().len() ==> ((#[trigger] a.outputs()[i]) is Some <==> b.outputs()[i] is Some)
            && block_len(a.outputs()[i]) == block_len(b.outputs()[i])
}

/// Every buffer of the row holds a block, and all blocks have one length.
pub open spec fn all_present(blocks: Seq<Option<Seq<ControlVoltage>>>) -> bool {
    forall|i: int|
        0 <= i < blocks.len() ==> (#[trigger] blocks[i]) is Some && block_len(blocks[i])
            == block_len(blocks[0])
}

/// Every buffer of the row holds `size` samples; an empty buffer counts as
/// holding none.
pub open spec fn sized(blocks: Seq<Option<Seq<ControlVoltage>>>, size: nat) -> bool {
    forall|i: int| 0 <= i < blocks.len() ==> block_len(#[trigger] blocks[i]) == size
}

/// Resizing leaves a row of blocks of the right length as it is.
pub proof fn lemma_resized_sized(blocks: Seq<Option<Seq<ControlVoltage>>>, size: nat)
    requires
        all_present(blocks),
    ensures
        sized(resized_blocks(blocks, size), size),
        all_present(resized_blocks(blocks, size)),
        sized(blocks, size) ==> resized_blocks(blocks, size) == blocks,
{
    let after = resized_blocks(blocks, size);
    assert forall|i: int| 0 <= i < after.len() implies block_len(#[trigger] after[i]) == size by {
        assert(blocks[i] is Some);
    }
    assert forall|i: int| 0 <= i < after.len() implies (#[trigger] after[i]) is Some && block_len(
        after[i],
    ) == block_len(after[0]) by {
        assert(blocks[i] is Some);
        assert(blocks[0] is Some);
        assert(block_len(after[i]) == size);
        assert(block_len(after[0]) == size);
    }
    if sized(blocks, size) {
        assert forall|i: int| 0 <= i < after.len() implies after[i] == blocks[i] by {
            assert(blocks[i] is Some);
            assert(block_len(blocks[i]) == size);
        }
        assert(after =~= blocks);
    }
}

/// The slots of a patchbay with `count` inputs, none of them connected.
pub open spec fn unconnected(count: nat) -> Seq<Option<Connection>> {
    Seq::new(count, |i: int| None::<Connection>)
}

/// A node of the signal graph.
///
/// A module has an identity, a name that tells its kind, a fixed number of
/// input slots and output buffers, and settings of its own. An input slot
/// is empty or names the output port of a module it reads from.
pub trait SynthModule: Sized {
    /// The identity, the input slots and the output buffers.
    spec fn bay(&self) -> Patchbay;

    /// The module is valid: it has the ports of its kind, a block in every
    /// output buffer, and its settings keep their ranges.
    spec fn wf(&self) -> bool;

    /// The name of the module's kind.
    spec fn name(&self) -> Seq<char>;

    /// The label of an input port, if it has one.
    spec fn input_label(&self, input_idx: int) -> Option<Seq<char>>;

    /// The label of an output port, if it has one.
    spec fn output_label(&self, output_idx: int) -> Option<Seq<char>>;

    /// The module has changed in a way that a display should show.
    spec fn dirty(&self) -> bool;

    /// The two modules agree in all but their patchbays.
    spec fn same_settings(&self, other: &Self) -> bool;

    /// The module is set up for the audio configuration: its buffers hold
    /// blocks of the configuration's length, and what it has taken from a
    /// configuration it has taken from this one.
    spec fn fits(&self, audio_config: AudioConfig) -> bool;

    /// Whether a module fits a configuration depends on its buffers and its
    /// settings alone.
    proof fn lemma_fits(&self, other: &Self, audio_config: AudioConfig)
        ensures
            other.same_settings(self) && other.bay().outputs() == self.bay().outputs()
                ==> other.fits(audio_config) == self.fits(audio_config),
    ;

    /// Validity depends on the shape of the patchbay and on the settings
    /// alone, and a module agrees with itself.
    proof fn lemma_settings(&self, other: &Self)
        ensures
            self.same_settings(self),
            self.wf() && other.same_settings(self) && other.bay().wf() && same_shape(
                other.bay(),
                self.bay(),
            ) ==> other.wf(),
            self.wf() ==> self.bay().wf(),
            other.same_settings(self) ==> other.name() == self.name() && other.dirty()
                == self.dirty() && (forall|i: int| other.input_label(i) == self.input_label(i)) && (
            forall|i: int| other.output_label(i) == self.output_label(i)),
    ;

    /// Agreement in the settings carries over from module to module.
    proof fn lemma_settings_chain(&self, second: &Self, third: &Self)
        ensures
            self.same_settings(second) ==> second.same_settings(self),
            self.same_settings(second) && second.same_settings(third) ==> self.same_settings(third),
    ;

    /// An independent copy of the module, with buffers of its own.
    fn deep_clone(&self) -> (copy: Self)
        ensures
            copy.bay().ident() == self.bay().ident(),
            copy.bay().inputs() == self.bay().inputs(),
            copy.bay().outputs() == self.bay().outputs(),
            copy.same_settings(self),
            copy.wf() == self.wf(),
    ;

    /// The patchbay.
    fn patchbay(&self) -> (bay: &Patchbay)
        ensures
            *bay == self.bay(),
    ;

    /// The patchbay, to be changed. Nothing else of the module changes.
    fn patchbay_mut(&mut self) -> (bay: &mut Patchbay)
        ensures
            *bay == old(self).bay(),
            final(self).bay() == *final(bay),
            final(self).same_settings(old(self)),
    ;

    /// The name of the module's kind.
    fn get_name(&self) -> (name: String)
        ensures
            name@ == self.name(),
    ;

    /// The label of input port `input_idx`, for a tooltip; an error if
    /// there is no such port.
    fn get_input_label(&self, input_idx: u8) -> (label: Result<Option<String>, ()>)
        requires
            self.wf(),
        ensures
            label is Ok <==> input_idx < self.bay().inputs().len(),
            label matches Ok(text) ==> match text {
                Some(s) => self.input_label(input_idx as int) == Some(s@),
                None => self.input_label(input_idx as int) is None,
            },
    ;

    /// The label of output port `output_idx`, for a tooltip; an error if
    /// there is no such port.
    fn get_output_label(&self, output_idx: u8) -> (label: Result<Option<String>, ()>)
        requires
            self.wf(),
        ensures
            label is Ok <==> output_idx < self.bay().outputs().len(),
            label matches Ok(text) ==> match text {
                Some(s) => self.output_label(output_idx as int) == Some(s@),
                None => self.output_label(output_idx as int) is None,
            },
    ;

    /// Whether the module has changed in a way that a display should show.
    fn ui_dirty(&self) -> (dirty: bool)
        ensures
            dirty == self.dirty(),
    ;

    /// Takes over a new audio configuration: every output buffer is resized
    /// to the block length. The connections stay.
    fn set_audio_config(&mut self, audio_config: &AudioConfig)
        requires
            old(self).wf(),
        ensures
            final(self).wf(),
            final(self).bay().ident() == old(self).bay().ident(),
            final(self).bay().inputs() == old(self).bay().inputs(),
            final(self).bay().outputs() == resized_blocks(
                old(self).bay().outputs(),
                audio_config.buffer_size as nat,
            ),
            final(self).name() == old(self).name(),
            final(self).fits(*audio_config),
            old(self).fits(*audio_config) ==> final(self).same_settings(old(self)),
    ;

    /// The identity.
    fn id(&self) -> (id: ModuleId)
        ensures
            id == self.bay().ident(),
    {
        self.patchbay().id()
    }

    /// The identity as text.
    fn get_id(&self) -> (text: String)
        ensures
            text@ == uuid_text(self.bay().ident()),
    {
        self.patchbay().get_id()
    }

    /// The number of input ports.
    fn get_num_inputs(&self) -> (count: u8)
        requires
            self.wf(),
        ensures
            count == self.bay().inputs().len(),
    {
        proof {
            self.lemma_settings(self);
        }
        self.patchbay().get_num_inputs()
    }

    /// The number of output ports.
    fn get_num_outputs(&self) -> (count: u8)
        requires
            self.wf(),
        ensures
            count == self.bay().outputs().len(),
    {
        proof {
            self.lemma_settings(self);
        }
        self.patchbay().get_num_outputs()
    }

    /// What input slot `input_idx` holds: the module and the port it reads
    /// from, or nothing. An error if there is no such slot.
    fn get_input(&self, input_idx: u8) -> (slot: Result<Option<Connection>, ()>)
        ensures
            slot == if input_idx < self.bay().inputs().len() {
                Ok::<Option<Connection>, ()>(self.bay().inputs()[input_idx as int])
            } else {
                Err(())
            },
    {
        self.patchbay().get_input(input_idx)
    }

    /// The buffer of output port `output_idx`: the same buffer at every
    /// call. An error if there is no such port.
    fn get_output(&self, output_idx: u8) -> (buffer: Result<&AudioBuffer, ()>)
        ensures
            buffer is Ok <==> output_idx < self.bay().outputs().len(),
            buffer matches Ok(b) ==> b@ == self.bay().outputs()[output_idx as int],
    {
        self.patchbay().get_output(output_idx)
    }

    /// Connects input slot `input_idx` to output `src_port` of module
    /// `src_module`, in place of what the slot held. An error, and no
    /// change, if there is no such slot.
    fn set_input(&mut self, input_idx: u8, src_module: ModuleId, src_port: u8) -> (done: Result<
        (),
        (),
    >)
        ensures
            done is Ok <==> input_idx < old(self).bay().inputs().len(),
            done is Ok ==> final(self).bay().inputs() == connected(
                old(self).bay().inputs(),
                input_idx as int,
                src_module,
                src_port,
            ),
            done is Err ==> final(self).bay().inputs() == old(self).bay().inputs(),
            final(self).bay().ident() == old(self).bay().ident(),
            final(self).bay().outputs() == old(self).bay().outputs(),
            final(self).same_settings(old(self)),
            old(self).wf() ==> final(self).wf(),
    {
        proof {
            self.lemma_settings(self);
        }
        let ghost before = *self;
        let bay = self.patchbay_mut();
        let done = bay.set_input(input_idx, src_module, src_port);
        proof {
            before.lemma_settings(self);
        }
        done
    }

    /// Empties input slot `input_idx`. An error, and no change, if there is
    /// no such slot.
    fn disconnect_input(&mut self, input_idx: u8) -> (done: Result<(), ()>)
        ensures
            done is Ok <==> input_idx < old(self).bay().inputs().len(),
            done is Ok ==> final(self).bay().inputs() == disconnected(
                old(self).bay().inputs(),
                input_idx as int,
            ),
            done is Err ==> final(self).bay().inputs() == old(self).bay().inputs(),
            final(self).bay().ident() == old(self).bay().ident(),
            final(self).bay().outputs() == old(self).bay().outputs(),
            final(self).same_settings(old(self)),
            old(self).wf() ==> final(self).wf(),
    {
        proof {
            self.lemma_settings(self);
        }
        let ghost before = *self;
        let bay = self.patchbay_mut();
        let done = bay.disconnect_input(input_idx);
        proof {
            before.lemma_settings(self);
        }
        done
    }

    /// Empties every input slot.
    fn disconnect_inputs(&mut self)
        ensures
            final(self).bay().inputs() == unconnected(old(self).bay().inputs().len()),
            final(self).bay().ident() == old(self).bay().ident(),
            final(self).bay().outputs() == old(self).bay().outputs(),
            final(self).same_settings(old(self)),
            old(self).wf() ==> final(self).wf(),
    {
        proof {
            self.lemma_settings(self);
        }
        let ghost before = *self;
        let bay = self.patchbay_mut();
        bay.disconnect_inputs();
        proof {
            before.lemma_settings(self);
        }
    }
}

} // verus!
