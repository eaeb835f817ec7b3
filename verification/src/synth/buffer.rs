//! Sample buffers: the blocks that modules write and their consumers read.

use vstd::prelude::*;

use crate::synth::ControlVoltage;
use crate::synth::SILENCE;

verus! {

/// A block of `len` samples of silence.
pub open spec fn silence(len: nat) -> Seq<ControlVoltage> {
    Seq::new(len, |i: int| SILENCE)
}

/// The sample a module reads at place `i` of an input block: silence where
/// the input is not connected or its block ends early.
pub open spec fn sample_at(block: Option<Seq<ControlVoltage>>, i: int) -> ControlVoltage {
    match block {
        Some(samples) => if 0 <= i < samples.len() {
            samples[i]
        } else {
            SILENCE
        },
        None => SILENCE,
    }
}

/// The sample at place `idx` of an input block, silence where there is
/// none.
pub fn read_sample(block: Option<&Vec<ControlVoltage>>, idx: usize) -> (sample: ControlVoltage)
    ensures
        sample == sample_at(
            match block {
                Some(v) => Some(v@),
                None => None,
            },
            idx as int,
        ),
{
    match block {
        Some(samples) => if idx < samples.len() {
            samples[idx]
        } else {
            SILENCE
        },
        None => SILENCE,
    }
}

/// What a buffer holds after it was resized to `size` samples: a block of
/// that length stays, any other becomes silence, and no block stays none.
pub open spec fn resized(block: Option<Seq<ControlVoltage>>, size: nat) -> Option<
    Seq<ControlVoltage>,
> {
    match block {
        Some(samples) => if samples.len() == size {
            Some(samples)
        } else {
            Some(silence(size))
        },
        None => None,
    }
}

/// Either empty, which stands for "no signal", or a block of samples of a
/// fixed length.
#[derive(Debug)]
pub struct AudioBuffer {
    samples: Option<Vec<ControlVoltage>>,
}

impl View for AudioBuffer {
    type V = Option<Seq<ControlVoltage>>;

    closed spec fn view(&self) -> Option<Seq<ControlVoltage>> {
        match self.samples {
            Some(v) => Some(v@),
            None => None,
        }
    }
}

/// A vector with the same items.
pub fn copy_of<T: Copy>(items: &Vec<T>) -> (copy: Vec<T>)
    ensures
        copy@ == items@,
{
    let mut copy: Vec<T> = Vec::with_capacity(items.len());
    let mut i: usize = 0;
    while i < items.len()
        invariant
            i <= items.len(),
            copy@ == items@.subrange(0, i as int),
        decreases items.len() - i,
    {
        copy.push(items[i]);
        i += 1;
        assert(copy@ =~= items@.subrange(0, i as int));
    }
    assert(copy@ =~= items@);
    copy
}

/// A vector of `size` samples of silence.
pub fn silent_block(size: usize) -> (block: Vec<ControlVoltage>)
    ensures
        block@ == silence(size as nat),
{
    let mut block: Vec<ControlVoltage> = Vec::with_capacity(size);
    let mut i: usize = 0;
    while i < size
        invariant
            i <= size,
            block@ == silence(i as nat),
        decreases size - i,
    {
        block.push(SILENCE);
        i += 1;
        assert(block@ =~= silence(i as nat));
    }
    block
}

impl AudioBuffer {
    /// The empty buffer for `None`, a silent block of the given length
    /// otherwise.
    pub fn new(size: Option<usize>) -> (buffer: Self)
        ensures
            buffer@ == match size {
                Some(n) => Some(silence(n as nat)),
                None => None,
            },
    {
        match size {
            Some(n) => AudioBuffer { samples: Some(silent_block(n)) },
            None => AudioBuffer { samples: None },
        }
    }

    /// Gives the block of the buffer a length of `size` samples. A block
    /// that has that length already is kept with its contents, any other is
    /// replaced by silence. An empty buffer stays empty.
    pub fn resize(&mut self, size: usize)
        ensures
            final(self)@ == resized(old(self)@, size as nat),
    {
        let keep = match &self.samples {
            Some(block) => block.len() == size,
            None => true,
        };
        if !keep {
            self.samples = Some(silent_block(size));
        }
    }

    /// The block, if the buffer holds one.
    pub fn get(&self) -> (block: Option<&Vec<ControlVoltage>>)
        ensures
            match block {
                Some(v) => self@ == Some(v@),
                None => self@ is None,
            },
    {
        self.samples.as_ref()
    }

    /// Whether the buffer is empty.
    pub fn is_empty(&self) -> (empty: bool)
        ensures
            empty == (self@ is None),
    {
        self.samples.is_none()
    }

    /// The number of samples in the block; 0 for an empty buffer.
    pub fn len(&self) -> (len: usize)
        ensures
            len == match self@ {
                Some(block) => block.len(),
                None => 0,
            },
    {
        match &self.samples {
            Some(block) => block.len(),
            None => 0,
        }
    }

    /// Replaces what the buffer holds.
    pub fn put(&mut self, block: Option<Vec<ControlVoltage>>)
        ensures
            final(self)@ == match block {
                Some(v) => Some(v@),
                None => None,
            },
    {
        self.samples = block;
    }

    /// Takes the block out and leaves the buffer empty.
    pub fn take(&mut self) -> (block: Option<Vec<ControlVoltage>>)
        ensures
            final(self)@ is None,
            old(self)@ == match block {
                Some(v) => Some(v@),
                None => None,
            },
    {
        self.samples.take()
    }

    /// Calls `f` on the block, or on `None` for an empty buffer.
    pub fn with_read<T, F: FnOnce(Option<&Vec<ControlVoltage>>) -> T>(&self, f: F) -> (out: T)
        requires
            call_requires(f, (self.block_ref(),)),
        ensures
            call_ensures(f, (self.block_ref(),), out),
    {
        f(self.samples.as_ref())
    }

    /// The argument that `with_read` hands to its function.
    pub closed spec fn block_ref(&self) -> Option<&Vec<ControlVoltage>> {
        match self.samples {
            Some(v) => Some(&v),
            None => None,
        }
    }

    /// What `with_read` hands to its function is the block the buffer
    /// holds.
    pub proof fn lemma_block_ref(&self)
        ensures
            match self.block_ref() {
                Some(v) => self@ == Some(v@),
                None => self@ is None,
            },
    {
    }

    /// The arguments that `with_read_many` hands to its function are the
    /// blocks of the buffers, in their order.
    pub open spec fn block_refs(cv: Seq<AudioBuffer>, blocks: Seq<Option<&Vec<ControlVoltage>>>) -> bool {
        &&& blocks.len() == cv.len()
        &&& forall|i: int| 0 <= i < cv.len() ==> #[trigger] blocks[i] == cv[i].block_ref()
    }

    /// Calls `f` on the blocks of the buffers, in their order, with `None`
    /// for each empty buffer.
    pub fn with_read_many<T, F: FnOnce(Vec<Option<&Vec<ControlVoltage>>>) -> T>(
        cv: &Vec<AudioBuffer>,
        f: F,
    ) -> (out: T)
        requires
            forall|blocks: Vec<Option<&Vec<ControlVoltage>>>|
                Self::block_refs(cv@, blocks@) ==> call_requires(f, (blocks,)),
        ensures
            exists|blocks: Vec<Option<&Vec<ControlVoltage>>>|
                Self::block_refs(cv@, blocks@) && call_ensures(f, (blocks,), out),
    {
        let mut blocks: Vec<Option<&Vec<ControlVoltage>>> = Vec::with_capacity(cv.len());
        let mut i: usize = 0;
        while i < cv.len()
            invariant
                i <= cv.len(),
                blocks.len() == i,
                forall|j: int| 0 <= j < i ==> #[trigger] blocks[j] == cv[j].block_ref(),
            decreases cv.len() - i,
        {
            blocks.push(cv[i].samples.as_ref());
            i += 1;
        }
        assert(Self::block_refs(cv@, blocks@));
        f(blocks)
    }

    /// Hands the block to `f`, to be written, and keeps what `f` hands
    /// back; returns what else `f` returns. For an empty buffer `f` is
    /// handed `None`.
    pub fn with_write<T, F: FnOnce(Option<Vec<ControlVoltage>>) -> (Option<Vec<ControlVoltage>>, T)>(
        &mut self,
        f: F,
    ) -> (out: T)
        requires
            forall|block: Option<Vec<ControlVoltage>>| call_requires(f, (block,)),
        ensures
            exists|before: Option<Vec<ControlVoltage>>, after: Option<Vec<ControlVoltage>>|
                {
                    &&& #[trigger] call_ensures(f, (before,), (after, out))
                    &&& old(self)@ == Self::seen(before)
                    &&& final(self)@ == Self::seen(after)
                },
    {
        let before = self.samples.take();
        let (after, out) = f(before);
        self.samples = after;
        out
    }

    /// What a block holds, if there is one.
    pub open spec fn seen(block: Option<Vec<ControlVoltage>>) -> Option<Seq<ControlVoltage>> {
        match block {
            Some(v) => Some(v@),
            None => None,
        }
    }

    /// What a row of blocks holds.
    pub open spec fn seen_many(blocks: Seq<Option<Vec<ControlVoltage>>>) -> Seq<
        Option<Seq<ControlVoltage>>,
    > {
        Seq::new(blocks.len(), |i: int| Self::seen(blocks[i]))
    }

    /// What a row of buffers holds.
    pub open spec fn held(cv: Seq<AudioBuffer>) -> Seq<Option<Seq<ControlVoltage>>> {
        Seq::new(cv.len(), |i: int| cv[i]@)
    }

    /// Hands the blocks of the buffers to `f`, in their order, to be
    /// written, and keeps what `f` hands back, block by block; returns what
    /// else `f` returns. Should `f` hand back another number of blocks, the
    /// buffers for which it hands back none are left empty.
    pub fn with_write_many<
        T,
        F: FnOnce(Vec<Option<Vec<ControlVoltage>>>) -> (Vec<Option<Vec<ControlVoltage>>>, T),
    >(cv: &mut Vec<AudioBuffer>, f: F) -> (out: T)
        requires
            forall|blocks: Vec<Option<Vec<ControlVoltage>>>| call_requires(f, (blocks,)),
        ensures
            final(cv).len() == old(cv).len(),
            exists|before: Vec<Option<Vec<ControlVoltage>>>, after: Vec<Option<Vec<ControlVoltage>>>|
                {
                    &&& #[trigger] call_ensures(f, (before,), (after, out))
                    &&& Self::seen_many(before@) == Self::held(old(cv)@)
                    &&& forall|i: int|
                        0 <= i < final(cv).len() ==> (#[trigger] final(cv)[i])@ == if i
                            < after.len() {
                            Self::seen(after[i])
                        } else {
                            None
                        }
                },
    {
        let ghost start = Self::held(cv@);
        let mut before: Vec<Option<Vec<ControlVoltage>>> = Vec::with_capacity(cv.len());
        let mut i: usize = 0;
        while i < cv.len()
            invariant
                i <= cv.len(),
                cv.len() == old(cv).len(),
                start == Self::held(old(cv)@),
                before.len() == i,
                forall|j: int| 0 <= j < i ==> Self::seen(#[trigger] before[j]) == start[j],
                forall|j: int| 0 <= j < i ==> (#[trigger] cv[j])@ is None,
                forall|j: int| i <= j < cv.len() ==> (#[trigger] cv[j])@ == start[j],
            decreases cv.len() - i,
        {
            before.push(cv[i].samples.take());
            i += 1;
        }
        assert(Self::seen_many(before@) =~= start);
        let (mut after, out) = f(before);
        let ghost handed = after@;
        let mut left: usize = after.len();
        while left > 0
            invariant
                left <= after.len(),
                after.len() == left,
                left <= handed.len(),
                cv.len() == old(cv).len(),
                forall|j: int| 0 <= j < left ==> #[trigger] after[j] == handed[j],
                forall|j: int|
                    left <= j < cv.len() ==> (#[trigger] cv[j])@ == if j < handed.len() {
                        Self::seen(handed[j])
                    } else {
                        None
                    },
                forall|j: int| 0 <= j < left && j < cv.len() ==> (#[trigger] cv[j])@ is None,
            decreases left,
        {
            let block = after.pop().unwrap();
            left -= 1;
            if left < cv.len() {
                cv[left].samples = block;
            }
        }
        out
    }

    /// An independent buffer with the same contents.
    pub fn deep_clone(&self) -> (copy: Self)
        ensures
            copy@ == self@,
    {
        match &self.samples {
            Some(block) => AudioBuffer { samples: Some(copy_of(block)) },
            None => AudioBuffer { samples: None },
        }
    }
}

} // verus!
