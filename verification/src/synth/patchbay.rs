//! What every module has: an identity, input slots and output buffers.

use vstd::prelude::*;

use crate::synth::buffer::resized;
use crate::synth::buffer::silence;
use crate::synth::buffer::AudioBuffer;
use crate::synth::ident::id_text;
use crate::synth::ident::uuid_text;
use crate::synth::ident::ModuleId;
use crate::synth::ControlVoltage;

verus! {

/// What an input slot holds when it is connected: the module it reads from
/// and the number of that module's output port.
pub type Connection = (ModuleId, u8);

/// The most ports of one kind that a module can have.
pub const MAX_PORTS: usize = 255;

/// The contents of a row of buffers.
pub open spec fn blocks_of(bufs: Seq<AudioBuffer>) -> Seq<Option<Seq<ControlVoltage>>> {
    Seq::new(bufs.len(), |i: int| bufs[i]@)
}

/// A row of `count` blocks of silence, each `size` samples long.
pub open spec fn silent_blocks(count: nat, size: nat) -> Seq<Option<Seq<ControlVoltage>>> {
    Seq::new(count, |i: int| Some(silence(size)))
}

/// A row of blocks after each buffer was resized to `size`.
pub open spec fn resized_blocks(
    blocks: Seq<Option<Seq<ControlVoltage>>>,
    size: nat,
) -> Seq<Option<Seq<ControlVoltage>>> {
    Seq::new(blocks.len(), |i: int| resized(blocks[i], size))
}

/// A row of `count` silent buffers of `size` samples.
pub fn silent_buffers(count: usize, size: usize) -> (bufs: Vec<AudioBuffer>)
    ensures
        bufs.len() == count,
        blocks_of(bufs@) == silent_blocks(count as nat, size as nat),
{
    let mut bufs: Vec<AudioBuffer> = Vec::with_capacity(count);
    let mut i: usize = 0;
    while i < count
        invariant
            i <= count,
            bufs.len() == i,
            forall|j: int| 0 <= j < i ==> (#[trigger] bufs[j])@ == Some(silence(size as nat)),
        decreases count - i,
    {
        bufs.push(AudioBuffer::new(Some(size)));
        i += 1;
    }
    assert(blocks_of(bufs@) =~= silent_blocks(count as nat, size as nat));
    bufs
}

/// Resizes every buffer of a row to `size` samples.
pub fn resize_buffers(bufs: &mut Vec<AudioBuffer>, size: usize)
    ensures
        final(bufs).len() == old(bufs).len(),
        blocks_of(final(bufs)@) == resized_blocks(blocks_of(old(bufs)@), size as nat),
{
    let ghost before = blocks_of(bufs@);
    let mut i: usize = 0;
    while i < bufs.len()
        invariant
            i <= bufs.len(),
            bufs.len() == before.len(),
            forall|j: int| 0 <= j < i ==> (#[trigger] bufs[j])@ == resized(before[j], size as nat),
            forall|j: int| i <= j < bufs.len() ==> (#[trigger] bufs[j])@ == before[j],
        decreases bufs.len() - i,
    {
        bufs[i].resize(size);
        i += 1;
    }
    assert(blocks_of(bufs@) =~= resized_blocks(before, size as nat));
}

/// An independent copy of a row of buffers.
pub fn clone_buffers(bufs: &Vec<AudioBuffer>) -> (copy: Vec<AudioBuffer>)
    ensures
        copy.len() == bufs.len(),
        blocks_of(copy@) == blocks_of(bufs@),
{
    let mut copy: Vec<AudioBuffer> = Vec::with_capacity(bufs.len());
    let mut i: usize = 0;
    while i < bufs.len()
        invariant
            i <= bufs.len(),
            copy.len() == i,
            forall|j: int| 0 <= j < i ==> (#[trigger] copy[j])@ == bufs[j]@,
        decreases bufs.len() - i,
    {
        copy.push(bufs[i].deep_clone());
        i += 1;
    }
    assert(blocks_of(copy@) =~= blocks_of(bufs@));
    copy
}

/// The slots after slot `input_idx` has been connected to output
/// `src_port` of module `src_module`.
pub open spec fn connected(
    slots: Seq<Option<Connection>>,
    input_idx: int,
    src_module: ModuleId,
    src_port: u8,
) -> Seq<Option<Connection>> {
    slots.update(input_idx, Some((src_module, src_port)))
}

/// The slots after slot `input_idx` has been emptied.
pub open spec fn disconnected(slots: Seq<Option<Connection>>, input_idx: int) -> Seq<
    Option<Connection>,
> {
    slots.update(input_idx, None)
}

/// Disconnecting is idempotent: a slot that is emptied twice is as empty
/// as one that is emptied once, and the second time there still is such a
/// slot.
pub proof fn lemma_disconnect_twice(slots: Seq<Option<Connection>>, input_idx: int)
    requires
        0 <= input_idx < slots.len(),
    ensures
        input_idx < disconnected(slots, input_idx).len(),
        disconnected(slots, input_idx)[input_idx] is None,
        disconnected(disconnected(slots, input_idx), input_idx) == disconnected(slots, input_idx),
{
    assert(disconnected(disconnected(slots, input_idx), input_idx) =~= disconnected(
        slots,
        input_idx,
    ));
}

/// Connecting, disconnecting and connecting again leaves the slots as
/// connecting once does.
pub proof fn lemma_connect_again(
    slots: Seq<Option<Connection>>,
    input_idx: int,
    src_module: ModuleId,
    src_port: u8,
)
    requires
        0 <= input_idx < slots.len(),
    ensures
        connected(
            disconnected(connected(slots, input_idx, src_module, src_port), input_idx),
            input_idx,
            src_module,
            src_port,
        ) == connected(slots, input_idx, src_module, src_port),
        connected(slots, input_idx, src_module, src_port).len() == slots.len(),
        disconnected(slots, input_idx).len() == slots.len(),
{
    assert(connected(
        disconnected(connected(slots, input_idx, src_module, src_port), input_idx),
        input_idx,
        src_module,
        src_port,
    ) =~= connected(slots, input_idx, src_module, src_port));
}

/// The identity, the input slots and the output buffers of a module.
#[derive(Debug)]
pub struct Patchbay {
    id: ModuleId,
    inputs: Vec<Option<Connection>>,
    outputs: Vec<AudioBuffer>,
}

impl Patchbay {
    /// The identity.
    pub closed spec fn ident(&self) -> ModuleId {
        self.id
    }

    /// The input slots: `None` for a slot that is not connected.
    pub closed spec fn inputs(&self) -> Seq<Option<Connection>> {
        self.inputs@
    }

    /// The contents of the output buffers.
    pub closed spec fn outputs(&self) -> Seq<Option<Seq<ControlVoltage>>> {
        blocks_of(self.outputs@)
    }

    /// A module has at most 255 ports of each kind, so that a port number
    /// fits in a byte.
    pub open spec fn wf(&self) -> bool {
        &&& self.inputs().len() <= MAX_PORTS
        &&& self.outputs().len() <= MAX_PORTS
    }

    /// A patchbay with the given identity, `inputs` slots that are not
    /// connected and `outputs` silent buffers of `buffer_size` samples.
    pub fn new(id: ModuleId, inputs: u8, outputs: u8, buffer_size: usize) -> (bay: Self)
        ensures
            bay.wf(),
            bay.ident() == id,
            bay.inputs() == Seq::new(inputs as nat, |i: int| None::<Connection>),
            bay.outputs() == silent_blocks(outputs as nat, buffer_size as nat),
    {
        let mut slots: Vec<Option<Connection>> = Vec::with_capacity(inputs as usize);
        let mut i: u8 = 0;
        while i < inputs
            invariant
                i <= inputs,
                slots.len() == i,
                forall|j: int| 0 <= j < i ==> (#[trigger] slots[j]) is None,
            decreases inputs - i,
        {
            slots.push(None);
            i += 1;
        }
        assert(slots@ =~= Seq::new(inputs as nat, |i: int| None::<Connection>));
        let bufs = silent_buffers(outputs as usize, buffer_size);
        Patchbay { id, inputs: slots, outputs: bufs }
    }

    /// The identity.
    pub fn id(&self) -> (id: ModuleId)
        ensures
            id == self.ident(),
    {
        self.id
    }

    /// The identity as text.
    pub fn get_id(&self) -> (text: String)
        ensures
            text@ == uuid_text(self.ident()),
    {
        id_text(self.id)
    }

    /// The number of input slots.
    pub fn get_num_inputs(&self) -> (count: u8)
        requires
            self.wf(),
        ensures
            count == self.inputs().len(),
    {
        self.inputs.len() as u8
    }

    /// The number of output buffers.
    pub fn get_num_outputs(&self) -> (count: u8)
        requires
            self.wf(),
        ensures
            count == self.outputs().len(),
    {
        self.outputs.len() as u8
    }

    /// What input slot `input_idx` holds; an error if there is no such slot.
    pub fn get_input(&self, input_idx: u8) -> (slot: Result<Option<Connection>, ()>)
        ensures
            slot == if input_idx < self.inputs().len() {
                Ok::<Option<Connection>, ()>(self.inputs()[input_idx as int])
            } else {
                Err(())
            },
    {
        if (input_idx as usize) < self.inputs.len() {
            Ok(self.inputs[input_idx as usize])
        } else {
            Err(())
        }
    }

    /// Connects input slot `input_idx` to output `src_port` of module
    /// `src_module`, whatever the slot held; an error, and no change, if
    /// there is no such slot.
    pub fn set_input(&mut self, input_idx: u8, src_module: ModuleId, src_port: u8) -> (done: Result<
        (),
        (),
    >)
        ensures
            done is Ok <==> input_idx < old(self).inputs().len(),
            done is Ok ==> final(self).inputs() == connected(
                old(self).inputs(),
                input_idx as int,
                src_module,
                src_port,
            ),
            done is Err ==> final(self).inputs() == old(self).inputs(),
            final(self).ident() == old(self).ident(),
            final(self).outputs() == old(self).outputs(),
            final(self).wf() == old(self).wf(),
    {
        if (input_idx as usize) < self.inputs.len() {
            self.inputs.set(input_idx as usize, Some((src_module, src_port)));
            Ok(())
        } else {
            Err(())
        }
    }

    /// Empties input slot `input_idx`; an error, and no change, if there is
    /// no such slot.
    pub fn disconnect_input(&mut self, input_idx: u8) -> (done: Result<(), ()>)
        ensures
            done is Ok <==> input_idx < old(self).inputs().len(),
            done is Ok ==> final(self).inputs() == disconnected(old(self).inputs(), input_idx as int),
            done is Err ==> final(self).inputs() == old(self).inputs(),
            final(self).ident() == old(self).ident(),
            final(self).outputs() == old(self).outputs(),
            final(self).wf() == old(self).wf(),
    {
        if (input_idx as usize) < self.inputs.len() {
            self.inputs.set(input_idx as usize, None);
            Ok(())
        } else {
            Err(())
        }
    }

    /// Empties every input slot.
    pub fn disconnect_inputs(&mut self)
        ensures
            final(self).inputs() == Seq::new(old(self).inputs().len(), |i: int| None::<Connection>),
            final(self).ident() == old(self).ident(),
            final(self).outputs() == old(self).outputs(),
            final(self).wf() == old(self).wf(),
    {
        let mut i: usize = 0;
        while i < self.inputs.len()
            invariant
                i <= self.inputs.len(),
                self.inputs.len() == old(self).inputs.len(),
                self.id == old(self).id,
                self.outputs == old(self).outputs,
                forall|j: int| 0 <= j < i ==> (#[trigger] self.inputs[j]) is None,
            decreases self.inputs.len() - i,
        {
            self.inputs.set(i, None);
            i += 1;
        }
        assert(self.inputs@ =~= Seq::new(old(self).inputs().len(), |i: int| None::<Connection>));
    }

    /// Output buffer `output_idx`; an error if there is no such buffer.
    pub fn get_output(&self, output_idx: u8) -> (buffer: Result<&AudioBuffer, ()>)
        ensures
            buffer is Ok <==> output_idx < self.outputs().len(),
            buffer matches Ok(b) ==> b@ == self.outputs()[output_idx as int],
    {
        if (output_idx as usize) < self.outputs.len() {
            Ok(&self.outputs[output_idx as usize])
        } else {
            Err(())
        }
    }

    /// Replaces the block in output buffer `output_idx`. Without such a
    /// buffer nothing changes.
    pub fn put_output(&mut self, output_idx: usize, block: Vec<ControlVoltage>)
        ensures
            final(self).outputs() == if output_idx < old(self).outputs().len() {
                old(self).outputs().update(output_idx as int, Some(block@))
            } else {
                old(self).outputs()
            },
            final(self).ident() == old(self).ident(),
            final(self).inputs() == old(self).inputs(),
            final(self).wf() == old(self).wf(),
    {
        if output_idx < self.outputs.len() {
            let ghost before = blocks_of(self.outputs@);
            self.outputs[output_idx].put(Some(block));
            assert(blocks_of(self.outputs@) =~= before.update(output_idx as int, Some(block@)));
        }
    }

    /// Takes the block out of output buffer `output_idx`, to be written and
    /// put back; `None` if there is no such buffer or it is empty.
    pub fn take_output(&mut self, output_idx: usize) -> (block: Option<Vec<ControlVoltage>>)
        ensures
            block matches Some(v) ==> output_idx < old(self).outputs().len() && old(
                self,
            ).outputs()[output_idx as int] == Some(v@),
            block is None ==> output_idx >= old(self).outputs().len() || old(
                self,
            ).outputs()[output_idx as int] is None,
            final(self).outputs() == if output_idx < old(self).outputs().len() {
                old(self).outputs().update(output_idx as int, None)
            } else {
                old(self).outputs()
            },
            final(self).ident() == old(self).ident(),
            final(self).inputs() == old(self).inputs(),
            final(self).wf() == old(self).wf(),
    {
        if output_idx < self.outputs.len() {
            let ghost before = blocks_of(self.outputs@);
            let block = self.outputs[output_idx].take();
            assert(blocks_of(self.outputs@) =~= before.update(output_idx as int, None));
            block
        } else {
            None
        }
    }

    /// Resizes every output buffer to `size` samples.
    pub fn resize_outputs(&mut self, size: usize)
        ensures
            final(self).outputs() == resized_blocks(old(self).outputs(), size as nat),
            final(self).ident() == old(self).ident(),
            final(self).inputs() == old(self).inputs(),
            final(self).wf() == old(self).wf(),
    {
        resize_buffers(&mut self.outputs, size);
    }

    /// An independent copy: same identity, same connections, same blocks.
    pub fn deep_clone(&self) -> (copy: Self)
        ensures
            copy.ident() == self.ident(),
            copy.inputs() == self.inputs(),
            copy.outputs() == self.outputs(),
            copy.wf() == self.wf(),
    {
        let mut slots: Vec<Option<Connection>> = Vec::with_capacity(self.inputs.len());
        let mut i: usize = 0;
        while i < self.inputs.len()
            invariant
                i <= self.inputs.len(),
                slots@ == self.inputs@.subrange(0, i as int),
            decreases self.inputs.len() - i,
        {
            slots.push(self.inputs[i]);
            i += 1;
            assert(slots@ =~= self.inputs@.subrange(0, i as int));
        }
        assert(slots@ =~= self.inputs@);
        let bufs = clone_buffers(&self.outputs);
        Patchbay { id: self.id, inputs: slots, outputs: bufs }
    }
}

} // verus!
