//! The step sequencers.

use vstd::prelude::*;

use crate::synth::above_threshold;
use crate::synth::buffer::copy_of;
use crate::synth::buffer::read_sample;
use crate::synth::buffer::sample_at;
use crate::synth::buffer::AudioBuffer;
use crate::synth::ident::fresh_id;
use crate::synth::ident::ModuleId;
use crate::synth::module::all_present;
use crate::synth::module::block_len;
use crate::synth::module::lemma_resized_sized;
use crate::synth::module::same_shape;
use crate::synth::module::sized;
use crate::synth::module::unconnected;
use crate::synth::module::SynthModule;
use crate::synth::patchbay::silent_blocks;
use crate::synth::patchbay::Patchbay;
use crate::synth::AudioConfig;
use crate::synth::ControlVoltage;
use crate::synth::SILENCE;
use crate::synth::TransitionDetector;
use crate::synth::UNITY;

verus! {

/// The fewest steps a sequence can have.
pub const MIN_STEPS: usize = 2;

/// The most steps a sequence can have.
pub const MAX_STEPS: usize = 64;

/// The fewest octaves a grid can show.
pub const MIN_OCTAVES: u8 = 1;

/// The most octaves a grid can show.
pub const MAX_OCTAVES: u8 = 4;

/// The number of channels of a pattern sequencer.
pub const PATTERN_CHANNELS: usize = 8;

/// One step of a grid sequence: silent, or a row of the grid together with
/// whether its gate stays open for the whole step.
pub type GridCell = Option<(u16, bool)>;

/// One step of one channel of a pattern: silent, held open (`true`), or
/// open while the step input is (`false`).
pub type PatternCell = Option<bool>;

/// Whether a row of the grid is a black key of the keyboard.
pub open spec fn black_key(note: u16) -> bool {
    let k = note % 12;
    k == 1 || k == 3 || k == 6 || k == 8 || k == 10
}

/// Whether a row of the grid is a black key of the keyboard.
pub fn is_black_key(note: u16) -> (black: bool)
    ensures
        black == black_key(note),
{
    match note % 12 {
        1 => true,
        3 => true,
        6 => true,
        8 => true,
        10 => true,
        _ => false,
    }
}

/// Where a sequencer stands.
#[derive(Clone, Copy, Debug, PartialEq, Eq, Structural)]
pub struct StepState {
    /// The step that sounds.
    pub current_step: u16,
    /// Watches the step input.
    pub transition_detector: TransitionDetector,
    /// Watches the sync input.
    pub sync_transition_detector: TransitionDetector,
    /// Whether the step has changed since the display last showed it.
    pub ui_dirty: bool,
}

impl StepState {
    /// At step 0, the inputs taken to have been high.
    pub fn new() -> (state: Self)
        ensures
            state == (StepState {
                current_step: 0,
                transition_detector: TransitionDetector { last: true },
                sync_transition_detector: TransitionDetector { last: true },
                ui_dirty: false,
            }),
    {
        StepState {
            current_step: 0,
            transition_detector: TransitionDetector::new(),
            sync_transition_detector: TransitionDetector::new(),
            ui_dirty: false,
        }
    }

    /// The state after one sample of the step and sync inputs, for a
    /// sequence of `steps` steps: a rising step input moves on by one
    /// step, a rising sync input goes back to step 0, and so does a step
    /// beyond the end of the sequence.
    pub open spec fn stepped(
        &self,
        step_in: ControlVoltage,
        sync_in: ControlVoltage,
        steps: nat,
    ) -> StepState {
        let rising = above_threshold(step_in) && !self.transition_detector.last;
        let synced = above_threshold(sync_in) && !self.sync_transition_detector.last;
        let moved: int = if synced {
            0
        } else if rising {
            self.current_step + 1
        } else {
            self.current_step as int
        };
        StepState {
            current_step: if moved >= steps {
                0
            } else {
                moved as u16
            },
            transition_detector: TransitionDetector { last: above_threshold(step_in) },
            sync_transition_detector: TransitionDetector { last: above_threshold(sync_in) },
            ui_dirty: self.ui_dirty || rising,
        }
    }

    /// The state after the first `k` samples of a block.
    pub open spec fn ran(
        &self,
        step_in: Option<Seq<ControlVoltage>>,
        sync_in: Option<Seq<ControlVoltage>>,
        steps: nat,
        k: nat,
    ) -> StepState
        decreases k,
    {
        if k == 0 {
            *self
        } else {
            self.ran(step_in, sync_in, steps, (k - 1) as nat).stepped(
                sample_at(step_in, k - 1),
                sample_at(sync_in, k - 1),
                steps,
            )
        }
    }

    /// Takes one sample of the step and sync inputs and returns the step
    /// that sounds.
    pub fn advance(&mut self, step_in: ControlVoltage, sync_in: ControlVoltage, steps: usize) -> (cur:
        usize)
        requires
            1 <= steps <= MAX_STEPS,
        ensures
            *final(self) == old(self).stepped(step_in, sync_in, steps as nat),
            cur == final(self).current_step,
            cur < steps,
    {
        let rising = self.transition_detector.is_transition(&step_in);
        let synced = self.sync_transition_detector.is_transition(&sync_in);
        let mut cur: usize = self.current_step as usize;
        if rising {
            cur = cur + 1;
            self.ui_dirty = true;
        }
        if synced {
            cur = 0;
        }
        if cur >= steps {
            cur = 0;
        }
        self.current_step = cur as u16;
        cur
    }
}

/// What a gate output carries for a cell: silence for a silent cell, a one
/// for a cell that is held open, and the step input for any other cell.
pub open spec fn gate_of(cell: PatternCell, step_in: ControlVoltage) -> ControlVoltage {
    match cell {
        Some(hold) => if hold {
            UNITY
        } else {
            step_in
        },
        None => SILENCE,
    }
}

/// What a gate output carries for a cell.
pub fn gate_for(cell: PatternCell, step_in: ControlVoltage) -> (gate: ControlVoltage)
    ensures
        gate == gate_of(cell, step_in),
{
    match cell {
        Some(hold) => if hold {
            UNITY
        } else {
            step_in
        },
        None => SILENCE,
    }
}

/// What the sync output carries: a one during step 0.
pub open spec fn sync_of(step: int) -> ControlVoltage {
    if step == 0 {
        UNITY
    } else {
        SILENCE
    }
}

/// How a grid cell opens its gate.
pub open spec fn hold_of(cell: GridCell) -> PatternCell {
    match cell {
        Some((_, hold)) => Some(hold),
        None => None,
    }
}

/// A step sequencer for one voice: every step is silent or sounds one row
/// of a grid of pitches.
#[derive(Debug)]
pub struct GridSequencerModule {
    bay: Patchbay,
    sequence: Vec<GridCell>,
    octaves: u8,
    steps_per_octave: u16,
    steps: StepState,
    last: ControlVoltage,
}

/// How a cell of a grid is to be shown. Of the reasons that hold for a
/// cell, the last in this list decides.
#[derive(Clone, Copy, Debug, PartialEq, Eq, Structural)]
pub enum CellShade {
    /// Nothing of note.
    Plain,
    /// The column is the first of a group of four.
    Beat,
    /// The row is a black key.
    BlackKey,
    /// The row is the first of an octave.
    Octave,
    /// The column is the step that sounds.
    Current,
    /// The cell sounds without its gate held open.
    Gated,
    /// The cell sounds with its gate held open.
    Held,
}

/// A sequence of `steps` silent cells.
fn silent_sequence(steps: usize) -> (sequence: Vec<GridCell>)
    ensures
        sequence@ == Seq::new(steps as nat, |i: int| None::<(u16, bool)>),
{
    let mut sequence: Vec<GridCell> = Vec::with_capacity(steps);
    let mut i: usize = 0;
    while i < steps
        invariant
            i <= steps,
            sequence.len() == i,
            forall|j: int| 0 <= j < i ==> (#[trigger] sequence[j]) is None,
        decreases steps - i,
    {
        sequence.push(None);
        i += 1;
    }
    assert(sequence@ =~= Seq::new(steps as nat, |i: int| None::<(u16, bool)>));
    sequence
}

/// The cells resized to `steps`: cut off at the end, or filled up with
/// silent cells.
pub open spec fn resized_cells<T>(cells: Seq<Option<T>>, steps: nat) -> Seq<Option<T>> {
    Seq::new(
        steps,
        |i: int|
            if i < cells.len() {
                cells[i]
            } else {
                None
            },
    )
}

/// Resizes a row of cells to `steps`.
fn resize_cells<T: Copy>(cells: &mut Vec<Option<T>>, steps: usize)
    ensures
        final(cells)@ == resized_cells(old(cells)@, steps as nat),
{
    let ghost before = cells@;
    if steps < cells.len() {
        cells.truncate(steps);
    }
    while cells.len() < steps
        invariant
            cells.len() <= steps,
            before.len() <= steps ==> cells.len() >= before.len(),
            before.len() > steps ==> cells.len() == steps,
            forall|i: int|
                0 <= i < cells.len() ==> (#[trigger] cells[i]) == if i < before.len() {
                    before[i]
                } else {
                    None
                },
        decreases steps - cells.len(),
    {
        cells.push(None);
    }
    assert(cells@ =~= resized_cells(before, steps as nat));
}

impl GridSequencerModule {
    /// A sequencer with the given identity and settings, its outputs
    /// silent. An error if the sequence has fewer than 2 or more than 64
    /// steps, if there are fewer than 1 or more than 4 octaves, or if an
    /// octave has no rows.
    pub fn restore(
        id: ModuleId,
        sequence: Vec<GridCell>,
        octaves: u8,
        steps_per_octave: u16,
        steps: StepState,
        last: ControlVoltage,
        audio_config: &AudioConfig,
    ) -> (restored: Result<Self, ()>)
        ensures
            restored is Ok <==> MIN_STEPS <= sequence.len() <= MAX_STEPS && MIN_OCTAVES <= octaves
                <= MAX_OCTAVES && steps_per_octave >= 1,
            restored matches Ok(module) ==> {
                &&& module.wf()
                &&& module.fits(*audio_config)
                &&& module.bay().ident() == id
                &&& module.bay().inputs() == unconnected(2)
                &&& module.bay().outputs() == silent_blocks(3, audio_config.buffer_size as nat)
                &&& module.sequence() == sequence@
                &&& module.octaves() == octaves
                &&& module.steps_per_octave() == steps_per_octave
                &&& module.step_state() == steps
                &&& module.last() == last
            },
    {
        if sequence.len() < MIN_STEPS || sequence.len() > MAX_STEPS || octaves < MIN_OCTAVES
            || octaves > MAX_OCTAVES || steps_per_octave < 1 {
            return Err(());
        }
        let bay = Patchbay::new(id, 2, 3, audio_config.buffer_size);
        assert(all_present(bay.outputs()));
        Ok(GridSequencerModule { bay, sequence, octaves, steps_per_octave, steps, last })
    }

    /// A fresh sequencer: 64 silent steps, two octaves of twelve rows, at
    /// step 0.
    pub fn new(audio_config: &AudioConfig) -> (module: Self)
        ensures
            module.wf(),
            module.fits(*audio_config),
            module.bay().inputs() == unconnected(2),
            module.bay().outputs() == silent_blocks(3, audio_config.buffer_size as nat),
            module.sequence() == Seq::new(64, |i: int| None::<(u16, bool)>),
            module.octaves() == 2,
            module.steps_per_octave() == 12,
            module.step_state() == (StepState {
                current_step: 0,
                transition_detector: TransitionDetector { last: true },
                sync_transition_detector: TransitionDetector { last: true },
                ui_dirty: false,
            }),
            module.last() == SILENCE,
    {
        let bay = Patchbay::new(fresh_id(), 2, 3, audio_config.buffer_size);
        assert(all_present(bay.outputs()));
        GridSequencerModule {
            bay,
            sequence: silent_sequence(MAX_STEPS),
            octaves: 2,
            steps_per_octave: 12,
            steps: StepState::new(),
            last: SILENCE,
        }
    }

    /// The name of this kind of module.
    pub fn get_name() -> (name: String)
        ensures
            name@ == "Grid Sequencer"@,
    {
        "Grid Sequencer".to_owned()
    }

    /// The steps of the sequence.
    pub closed spec fn sequence(&self) -> Seq<GridCell> {
        self.sequence@
    }

    /// The number of octaves the grid shows.
    pub closed spec fn octaves(&self) -> u8 {
        self.octaves
    }

    /// The number of rows that make an octave.
    pub closed spec fn steps_per_octave(&self) -> u16 {
        self.steps_per_octave
    }

    /// Where the sequencer stands.
    pub closed spec fn step_state(&self) -> StepState {
        self.steps
    }

    /// The pitch that was put out last, held through silent steps.
    pub closed spec fn last(&self) -> ControlVoltage {
        self.last
    }
}

impl GridSequencerModule {
    /// How cell (`col`, `row`) of the grid is to be shown.
    pub open spec fn shade(&self, col: int, row: u16) -> CellShade {
        if 0 <= col < self.sequence().len() && self.sequence()[col] == Some((row, false)) {
            CellShade::Gated
        } else if 0 <= col < self.sequence().len() && self.sequence()[col] == Some((row, true)) {
            CellShade::Held
        } else if self.step_state().current_step == col {
            CellShade::Current
        } else if row % self.steps_per_octave() == 0 {
            CellShade::Octave
        } else if black_key(row) {
            CellShade::BlackKey
        } else if col % 4 == 0 {
            CellShade::Beat
        } else {
            CellShade::Plain
        }
    }

    /// The cell at step `col` after it has been clicked at `row`: a cell
    /// that sounds `row` with its gate held open lets go of it, one
    /// that sounds `row` without holding falls silent, and any other cell
    /// sounds `row` with its gate held open.
    pub open spec fn clicked(cell: GridCell, row: u16) -> GridCell {
        if cell == Some((row, true)) {
            Some((row, false))
        } else if cell == Some((row, false)) {
            None
        } else {
            Some((row, true))
        }
    }

    /// The steps of the sequence.
    pub fn get_sequence(&self) -> (sequence: &Vec<GridCell>)
        ensures
            sequence@ == self.sequence(),
    {
        &self.sequence
    }

    /// The number of octaves the grid shows.
    pub fn get_octaves(&self) -> (octaves: u8)
        ensures
            octaves == self.octaves(),
    {
        self.octaves
    }

    /// The number of rows that make an octave.
    pub fn get_steps_per_octave(&self) -> (rows: u16)
        ensures
            rows == self.steps_per_octave(),
    {
        self.steps_per_octave
    }

    /// Where the sequencer stands.
    pub fn step_state_ref(&self) -> (state: &StepState)
        ensures
            *state == self.step_state(),
    {
        &self.steps
    }

    /// The pitch that was put out last.
    pub fn get_last(&self) -> (last: ControlVoltage)
        ensures
            last == self.last(),
    {
        self.last
    }

    /// Notes that the display has shown the module.
    pub fn clear_ui_dirty(&mut self)
        ensures
            final(self).step_state() == (StepState { ui_dirty: false, ..old(self).step_state() }),
            final(self).bay() == old(self).bay(),
            final(self).sequence() == old(self).sequence(),
            final(self).octaves() == old(self).octaves(),
            final(self).steps_per_octave() == old(self).steps_per_octave(),
            final(self).last() == old(self).last(),
            final(self).wf() == old(self).wf(),
    {
        self.steps.ui_dirty = false;
    }

    /// Sets the number of octaves the grid shows. An error, and no change,
    /// for fewer than 1 and for more than 4.
    pub fn set_octaves(&mut self, octaves: u8) -> (done: Result<(), ()>)
        ensures
            done is Ok <==> MIN_OCTAVES <= octaves <= MAX_OCTAVES,
            final(self).octaves() == if done is Ok {
                octaves
            } else {
                old(self).octaves()
            },
            final(self).bay() == old(self).bay(),
            final(self).sequence() == old(self).sequence(),
            final(self).steps_per_octave() == old(self).steps_per_octave(),
            final(self).step_state() == old(self).step_state(),
            final(self).last() == old(self).last(),
            old(self).wf() ==> final(self).wf(),
    {
        if octaves < MIN_OCTAVES || octaves > MAX_OCTAVES {
            return Err(());
        }
        self.octaves = octaves;
        Ok(())
    }

    /// Sets the number of steps: the sequence is cut off at the end, or
    /// filled up with silent steps. An error, and no change, for fewer than
    /// 2 and for more than 64 steps.
    pub fn set_steps(&mut self, steps: usize) -> (done: Result<(), ()>)
        ensures
            done is Ok <==> MIN_STEPS <= steps <= MAX_STEPS,
            final(self).sequence() == if done is Ok {
                resized_cells(old(self).sequence(), steps as nat)
            } else {
                old(self).sequence()
            },
            final(self).bay() == old(self).bay(),
            final(self).octaves() == old(self).octaves(),
            final(self).steps_per_octave() == old(self).steps_per_octave(),
            final(self).step_state() == old(self).step_state(),
            final(self).last() == old(self).last(),
            old(self).wf() ==> final(self).wf(),
    {
        if steps < MIN_STEPS || steps > MAX_STEPS {
            return Err(());
        }
        resize_cells(&mut self.sequence, steps);
        Ok(())
    }

    /// Takes a click on cell (`col`, `row`) of the grid. An error, and no
    /// change, if the sequence has no step `col`.
    pub fn toggle_cell(&mut self, col: usize, row: u16) -> (done: Result<(), ()>)
        ensures
            done is Ok <==> col < old(self).sequence().len(),
            final(self).sequence() == if done is Ok {
                old(self).sequence().update(
                    col as int,
                    Self::clicked(old(self).sequence()[col as int], row),
                )
            } else {
                old(self).sequence()
            },
            final(self).bay() == old(self).bay(),
            final(self).octaves() == old(self).octaves(),
            final(self).steps_per_octave() == old(self).steps_per_octave(),
            final(self).step_state() == old(self).step_state(),
            final(self).last() == old(self).last(),
            old(self).wf() ==> final(self).wf(),
    {
        if col >= self.sequence.len() {
            return Err(());
        }
        let next = match self.sequence[col] {
            Some((held_row, hold)) => if held_row == row {
                if hold {
                    Some((row, false))
                } else {
                    None
                }
            } else {
                Some((row, true))
            },
            None => Some((row, true)),
        };
        self.sequence.set(col, next);
        Ok(())
    }

    /// How cell (`col`, `row`) of the grid is to be shown.
    pub fn cell_shade(&self, col: usize, row: u16) -> (shade: CellShade)
        requires
            self.wf(),
        ensures
            shade == self.shade(col as int, row),
    {
        let cell = if col < self.sequence.len() {
            self.sequence[col]
        } else {
            None
        };
        match cell {
            Some((held_row, hold)) => {
                if held_row == row {
                    return if hold {
                        CellShade::Held
                    } else {
                        CellShade::Gated
                    };
                }
            },
            None => {},
        }
        if self.steps.current_step as usize == col {
            CellShade::Current
        } else if row % self.steps_per_octave == 0 {
            CellShade::Octave
        } else if is_black_key(row) {
            CellShade::BlackKey
        } else if col % 4 == 0 {
            CellShade::Beat
        } else {
            CellShade::Plain
        }
    }
}

impl GridSequencerModule {
    /// The pitch output at sample `i` is right: for a sounding step what
    /// `pitch` gives for its row, for a silent step the pitch before it.
    pub open spec fn pitch_held<P: Fn(u16, u16) -> ControlVoltage>(
        cell: GridCell,
        steps_per_octave: u16,
        before: ControlVoltage,
        out: ControlVoltage,
        pitch: P,
    ) -> bool {
        match cell {
            Some((row, _)) => call_ensures(pitch, (row, steps_per_octave), out),
            None => out == before,
        }
    }

    /// The sequencer has computed one block since it was `before`, from the
    /// blocks its inputs read: sample by sample it has moved on with its
    /// step input, and put out pitch, gate and sync signal of the step it
    /// is at.
    pub open spec fn computed<P: Fn(u16, u16) -> ControlVoltage>(
        &self,
        before: Self,
        step_in: Option<Seq<ControlVoltage>>,
        sync_in: Option<Seq<ControlVoltage>>,
        pitch: P,
    ) -> bool {
        &&& self.bay().ident() == before.bay().ident()
        &&& self.bay().inputs() == before.bay().inputs()
        &&& self.sequence() == before.sequence()
        &&& self.octaves() == before.octaves()
        &&& self.steps_per_octave() == before.steps_per_octave()
        &&& same_shape(self.bay(), before.bay())
        &&& ({
            let n = block_len(before.bay().outputs()[0]);
            let steps = before.sequence().len();
            let start = before.step_state();
            let cv = self.bay().outputs()[0]->0;
            let gate = self.bay().outputs()[1]->0;
            let sync = self.bay().outputs()[2]->0;
            &&& self.step_state() == start.ran(step_in, sync_in, steps, n)
            &&& self.last() == if n == 0 {
                before.last()
            } else {
                cv[n - 1]
            }
            &&& forall|i: int|
                0 <= i < n ==> {
                    let cur = (#[trigger] start.ran(
                        step_in,
                        sync_in,
                        steps,
                        (i + 1) as nat,
                    )).current_step as int;
                    let cell = before.sequence()[cur];
                    &&& 0 <= cur < steps
                    &&& Self::pitch_held(
                        cell,
                        before.steps_per_octave(),
                        if i == 0 {
                            before.last()
                        } else {
                            cv[i - 1]
                        },
                        cv[i],
                        pitch,
                    )
                    &&& gate[i] == gate_of(hold_of(cell), sample_at(step_in, i))
                    &&& sync[i] == sync_of(cur)
                }
        })
    }

    /// Computes one block. `pitch` turns a row of the grid and the number
    /// of rows in an octave into a pitch.
    pub fn calc<P: Fn(u16, u16) -> ControlVoltage>(
        &mut self,
        step_in: &AudioBuffer,
        sync_in: &AudioBuffer,
        pitch: &P,
    )
        requires
            old(self).wf(),
            forall|row: u16, steps: u16| call_requires(*pitch, (row, steps)),
        ensures
            final(self).wf(),
            final(self).computed(*old(self), step_in@, sync_in@, *pitch),
    {
        let ghost start = self.steps;
        let ghost first = self.last;
        let ghost steps = self.sequence@.len();
        let ghost old_bay = self.bay;
        assert(all_present(self.bay.outputs()));
        assert(self.bay.outputs()[1] is Some && self.bay.outputs()[2] is Some);
        let mut cv = self.bay.take_output(0).unwrap();
        let mut gate = self.bay.take_output(1).unwrap();
        let mut sync = self.bay.take_output(2).unwrap();
        let ghost taken_bay = self.bay;
        let step_block = step_in.get();
        let sync_block = sync_in.get();
        let n = cv.len();
        let mut idx: usize = 0;
        while idx < n
            invariant
                self.bay == taken_bay,
                idx <= n,
                n == cv.len(),
                n == gate.len(),
                n == sync.len(),
                steps == self.sequence@.len(),
                MIN_STEPS <= steps <= MAX_STEPS,
                self.sequence@ == old(self).sequence@,
                self.octaves == old(self).octaves,
                self.steps_per_octave == old(self).steps_per_octave,
                match step_block {
                    Some(v) => step_in@ == Some(v@),
                    None => step_in@ is None,
                },
                match sync_block {
                    Some(v) => sync_in@ == Some(v@),
                    None => sync_in@ is None,
                },
                forall|row: u16, steps: u16| call_requires(*pitch, (row, steps)),
                self.steps == start.ran(step_in@, sync_in@, steps, idx as nat),
                self.last == if idx == 0 {
                    first
                } else {
                    cv[idx - 1]
                },
                forall|i: int|
                    0 <= i < idx ==> {
                        let cur = (#[trigger] start.ran(
                            step_in@,
                            sync_in@,
                            steps,
                            (i + 1) as nat,
                        )).current_step as int;
                        let cell = self.sequence@[cur];
                        &&& 0 <= cur < steps
                        &&& Self::pitch_held(
                            cell,
                            self.steps_per_octave,
                            if i == 0 {
                                first
                            } else {
                                cv[i - 1]
                            },
                            cv[i],
                            *pitch,
                        )
                        &&& gate[i] == gate_of(hold_of(cell), sample_at(step_in@, i))
                        &&& sync[i] == sync_of(cur)
                    },
            decreases n - idx,
        {
            let step_sample = read_sample(step_block, idx);
            let sync_sample = read_sample(sync_block, idx);
            let cur = self.steps.advance(step_sample, sync_sample, self.sequence.len());
            assert(self.steps == start.ran(step_in@, sync_in@, steps, (idx + 1) as nat));
            let (level, opened) = match self.sequence[cur] {
                Some((row, hold)) => (
                    pitch(row, self.steps_per_octave),
                    gate_for(Some(hold), step_sample),
                ),
                None => (self.last, SILENCE),
            };
            cv.set(idx, level);
            gate.set(idx, opened);
            sync.set(
                idx,
                if cur == 0 {
                    UNITY
                } else {
                    SILENCE
                },
            );
            self.last = level;
            idx += 1;
        }
        self.bay.put_output(0, cv);
        self.bay.put_output(1, gate);
        self.bay.put_output(2, sync);
        proof {
            assert(self.bay.outputs() =~= old_bay.outputs().update(0, Some(cv@)).update(
                1,
                Some(gate@),
            ).update(2, Some(sync@)));
        }
    }
}

impl SynthModule for GridSequencerModule {
    closed spec fn bay(&self) -> Patchbay {
        self.bay
    }

    open spec fn wf(&self) -> bool {
        &&& self.bay().wf()
        &&& self.bay().inputs().len() == 2
        &&& self.bay().outputs().len() == 3
        &&& all_present(self.bay().outputs())
        &&& MIN_STEPS <= self.sequence().len() <= MAX_STEPS
        &&& MIN_OCTAVES <= self.octaves() <= MAX_OCTAVES
        &&& self.steps_per_octave() >= 1
    }

    open spec fn name(&self) -> Seq<char> {
        "Grid Sequencer"@
    }

    open spec fn input_label(&self, input_idx: int) -> Option<Seq<char>> {
        if input_idx == 0 {
            Some("Step"@)
        } else if input_idx == 1 {
            Some("Sync"@)
        } else {
            None
        }
    }

    open spec fn output_label(&self, output_idx: int) -> Option<Seq<char>> {
        if output_idx == 0 {
            Some("CV"@)
        } else if output_idx == 1 {
            Some("Gate"@)
        } else if output_idx == 2 {
            Some("Sync"@)
        } else {
            None
        }
    }

    open spec fn dirty(&self) -> bool {
        self.step_state().ui_dirty
    }

    open spec fn same_settings(&self, other: &Self) -> bool {
        &&& self.sequence() == other.sequence()
        &&& self.octaves() == other.octaves()
        &&& self.steps_per_octave() == other.steps_per_octave()
        &&& self.step_state() == other.step_state()
        &&& self.last() == other.last()
    }

    open spec fn fits(&self, audio_config: AudioConfig) -> bool {
        &&& sized(self.bay().outputs(), audio_config.buffer_size as nat)
    }

    proof fn lemma_fits(&self, other: &Self, audio_config: AudioConfig) {
        assert(other.same_settings(self) && other.bay().outputs() == self.bay().outputs()
            ==> other.fits(audio_config) == self.fits(audio_config));
    }

    proof fn lemma_settings(&self, other: &Self) {
        assert(self.same_settings(self));
        assert(other.same_settings(self) ==> other.name() == self.name());
        assert(other.same_settings(self) ==> other.dirty() == self.dirty());
        assert(forall|i: int| other.input_label(i) == self.input_label(i));
        assert(forall|i: int| other.output_label(i) == self.output_label(i));
    }

    proof fn lemma_settings_chain(&self, second: &Self, third: &Self) {
        assert(self.same_settings(second) ==> second.same_settings(self));
        assert(self.same_settings(second) && second.same_settings(third) ==> self.same_settings(
            third,
        ));
    }

    fn deep_clone(&self) -> (copy: Self) {
        Self {
            bay: self.bay.deep_clone(),
            sequence: copy_of(&self.sequence),
            octaves: self.octaves,
            steps_per_octave: self.steps_per_octave,
            steps: self.steps,
            last: self.last,
        }
    }

    fn patchbay(&self) -> (bay: &Patchbay) {
        &self.bay
    }

    fn patchbay_mut(&mut self) -> (bay: &mut Patchbay) {
        &mut self.bay
    }

    fn get_name(&self) -> (name: String) {
        Self::get_name()
    }

    fn get_input_label(&self, input_idx: u8) -> (label: Result<Option<String>, ()>) {
        match input_idx {
            0 => Ok(Some("Step".to_owned())),
            1 => Ok(Some("Sync".to_owned())),
            _ => Err(()),
        }
    }

    fn get_output_label(&self, output_idx: u8) -> (label: Result<Option<String>, ()>) {
        match output_idx {
            0 => Ok(Some("CV".to_owned())),
            1 => Ok(Some("Gate".to_owned())),
            2 => Ok(Some("Sync".to_owned())),
            _ => Err(()),
        }
    }

    fn ui_dirty(&self) -> (dirty: bool) {
        self.steps.ui_dirty
    }

    fn set_audio_config(&mut self, audio_config: &AudioConfig)
        ensures
            final(self).same_settings(old(self)),
    {
        proof {
            lemma_resized_sized(self.bay.outputs(), audio_config.buffer_size as nat);
        }
        self.bay.resize_outputs(audio_config.buffer_size);
    }
}

/// The cells of a pattern, channel by channel.
pub open spec fn pattern_of(rows: Seq<Vec<PatternCell>>) -> Seq<Seq<PatternCell>> {
    Seq::new(rows.len(), |r: int| rows[r]@)
}

/// A pattern has eight channels of the same number of steps, from 2 to 64.
pub open spec fn even_pattern(pattern: Seq<Seq<PatternCell>>) -> bool {
    &&& pattern.len() == PATTERN_CHANNELS
    &&& MIN_STEPS <= pattern[0].len() <= MAX_STEPS
    &&& forall|r: int| 0 <= r < pattern.len() ==> (#[trigger] pattern[r]).len() == pattern[0].len()
}

/// A step sequencer for eight gates.
#[derive(Debug)]
pub struct PatternSequencerModule {
    bay: Patchbay,
    sequence: Vec<Vec<PatternCell>>,
    steps: StepState,
}

/// A row of `steps` silent cells.
fn silent_row(steps: usize) -> (row: Vec<PatternCell>)
    ensures
        row@ == Seq::new(steps as nat, |i: int| None::<bool>),
{
    let mut row: Vec<PatternCell> = Vec::with_capacity(steps);
    let mut i: usize = 0;
    while i < steps
        invariant
            i <= steps,
            row.len() == i,
            forall|j: int| 0 <= j < i ==> (#[trigger] row[j]) is None,
        decreases steps - i,
    {
        row.push(None);
        i += 1;
    }
    assert(row@ =~= Seq::new(steps as nat, |i: int| None::<bool>));
    row
}

impl PatternSequencerModule {
    /// A sequencer with the given identity and settings, its outputs
    /// silent. An error unless the pattern has eight channels of the same
    /// number of steps, from 2 to 64.
    pub fn restore(
        id: ModuleId,
        sequence: Vec<Vec<PatternCell>>,
        steps: StepState,
        audio_config: &AudioConfig,
    ) -> (restored: Result<Self, ()>)
        ensures
            restored is Ok <==> even_pattern(pattern_of(sequence@)),
            restored matches Ok(module) ==> {
                &&& module.wf()
                &&& module.fits(*audio_config)
                &&& module.bay().ident() == id
                &&& module.bay().inputs() == unconnected(2)
                &&& module.bay().outputs() == silent_blocks(9, audio_config.buffer_size as nat)
                &&& module.pattern() == pattern_of(sequence@)
                &&& module.step_state() == steps
            },
    {
        if sequence.len() != PATTERN_CHANNELS {
            return Err(());
        }
        let count = sequence[0].len();
        if count < MIN_STEPS || count > MAX_STEPS {
            return Err(());
        }
        let mut r: usize = 0;
        while r < sequence.len()
            invariant
                r <= sequence.len(),
                sequence.len() == PATTERN_CHANNELS,
                count == sequence[0].len(),
                forall|j: int| 0 <= j < r ==> (#[trigger] pattern_of(sequence@)[j]).len() == count,
            decreases sequence.len() - r,
        {
            if sequence[r].len() != count {
                assert(pattern_of(sequence@)[r as int].len() != pattern_of(sequence@)[0].len());
                return Err(());
            }
            r += 1;
        }
        let bay = Patchbay::new(id, 2, 9, audio_config.buffer_size);
        assert(all_present(bay.outputs()));
        Ok(Self { bay, sequence, steps })
    }

    /// A fresh sequencer: eight channels of 64 silent steps, at step 0.
    pub fn new(audio_config: &AudioConfig) -> (module: Self)
        ensures
            module.wf(),
            module.fits(*audio_config),
            module.bay().inputs() == unconnected(2),
            module.bay().outputs() == silent_blocks(9, audio_config.buffer_size as nat),
            module.pattern() == Seq::new(8, |r: int| Seq::new(64, |i: int| None::<bool>)),
            module.step_state() == (StepState {
                current_step: 0,
                transition_detector: TransitionDetector { last: true },
                sync_transition_detector: TransitionDetector { last: true },
                ui_dirty: false,
            }),
    {
        let bay = Patchbay::new(fresh_id(), 2, 9, audio_config.buffer_size);
        assert(all_present(bay.outputs()));
        let mut sequence: Vec<Vec<PatternCell>> = Vec::with_capacity(PATTERN_CHANNELS);
        let mut r: usize = 0;
        while r < PATTERN_CHANNELS
            invariant
                r <= PATTERN_CHANNELS,
                sequence.len() == r,
                forall|j: int|
                    0 <= j < r ==> (#[trigger] sequence[j])@ == Seq::new(
                        64,
                        |i: int| None::<bool>,
                    ),
            decreases PATTERN_CHANNELS - r,
        {
            sequence.push(silent_row(MAX_STEPS));
            r += 1;
        }
        assert(pattern_of(sequence@) =~= Seq::new(8, |r: int| Seq::new(64, |i: int| None::<bool>)));
        Self { bay, sequence, steps: StepState::new() }
    }

    /// How cell `col` of channel `channel` is to be shown.
    pub open spec fn shade(&self, channel: int, col: int) -> CellShade {
        let cell = if 0 <= channel < self.pattern().len() && 0 <= col < self.pattern()[channel].len() {
            self.pattern()[channel][col]
        } else {
            None
        };
        if cell == Some(false) {
            CellShade::Gated
        } else if cell == Some(true) {
            CellShade::Held
        } else if self.step_state().current_step == col {
            CellShade::Current
        } else if col % 4 == 0 {
            CellShade::Beat
        } else {
            CellShade::Plain
        }
    }

    /// A cell after it has been clicked: a cell that holds its gate open
    /// lets go of it, one that sounds without holding falls silent, and a
    /// silent cell holds its gate open.
    pub open spec fn clicked(cell: PatternCell) -> PatternCell {
        match cell {
            Some(hold) => if hold {
                Some(false)
            } else {
                None
            },
            None => Some(true),
        }
    }

    /// The cells of the pattern, channel by channel.
    pub fn get_sequence(&self) -> (sequence: &Vec<Vec<PatternCell>>)
        ensures
            pattern_of(sequence@) == self.pattern(),
    {
        &self.sequence
    }

    /// Where the sequencer stands.
    pub fn step_state_ref(&self) -> (state: &StepState)
        ensures
            *state == self.step_state(),
    {
        &self.steps
    }

    /// Notes that the display has shown the module.
    pub fn clear_ui_dirty(&mut self)
        ensures
            final(self).step_state() == (StepState { ui_dirty: false, ..old(self).step_state() }),
            final(self).bay() == old(self).bay(),
            final(self).pattern() == old(self).pattern(),
            final(self).wf() == old(self).wf(),
    {
        self.steps.ui_dirty = false;
    }

    /// Sets the number of steps: every channel is cut off at the end, or
    /// filled up with silent steps. An error, and no change, for fewer than
    /// 2 and for more than 64 steps.
    pub fn set_steps(&mut self, steps: usize) -> (done: Result<(), ()>)
        ensures
            done is Ok <==> MIN_STEPS <= steps <= MAX_STEPS,
            final(self).pattern() == if done is Ok {
                Seq::new(
                    old(self).pattern().len(),
                    |r: int| resized_cells(old(self).pattern()[r], steps as nat),
                )
            } else {
                old(self).pattern()
            },
            final(self).bay() == old(self).bay(),
            final(self).step_state() == old(self).step_state(),
            old(self).wf() ==> final(self).wf(),
    {
        if steps < MIN_STEPS || steps > MAX_STEPS {
            return Err(());
        }
        let ghost before = pattern_of(self.sequence@);
        let mut r: usize = 0;
        while r < self.sequence.len()
            invariant
                r <= self.sequence.len(),
                self.sequence.len() == before.len(),
                self.bay == old(self).bay,
                self.steps == old(self).steps,
                forall|j: int|
                    0 <= j < r ==> (#[trigger] self.sequence[j])@ == resized_cells(
                        before[j],
                        steps as nat,
                    ),
                forall|j: int| r <= j < before.len() ==> (#[trigger] self.sequence[j])@ == before[j],
            decreases self.sequence.len() - r,
        {
            resize_cells(&mut self.sequence[r], steps);
            r += 1;
        }
        assert(pattern_of(self.sequence@) =~= Seq::new(
            before.len(),
            |r: int| resized_cells(before[r], steps as nat),
        ));
        Ok(())
    }

    /// Takes a click on cell `col` of channel `channel`. An error, and no
    /// change, if the pattern has no such cell.
    pub fn toggle_cell(&mut self, channel: usize, col: usize) -> (done: Result<(), ()>)
        ensures
            done is Ok <==> channel < old(self).pattern().len() && col < old(self).pattern()[channel as int].len(),
            final(self).pattern() == if done is Ok {
                old(self).pattern().update(
                    channel as int,
                    old(self).pattern()[channel as int].update(
                        col as int,
                        Self::clicked(old(self).pattern()[channel as int][col as int]),
                    ),
                )
            } else {
                old(self).pattern()
            },
            final(self).bay() == old(self).bay(),
            final(self).step_state() == old(self).step_state(),
            old(self).wf() ==> final(self).wf(),
    {
        if channel >= self.sequence.len() {
            return Err(());
        }
        if col >= self.sequence[channel].len() {
            return Err(());
        }
        let ghost before = pattern_of(self.sequence@);
        let next = match self.sequence[channel][col] {
            Some(hold) => if hold {
                Some(false)
            } else {
                None
            },
            None => Some(true),
        };
        self.sequence[channel].set(col, next);
        assert(pattern_of(self.sequence@) =~= before.update(
            channel as int,
            before[channel as int].update(col as int, Self::clicked(before[channel as int][col as int])),
        ));
        Ok(())
    }

    /// How cell `col` of channel `channel` is to be shown.
    pub fn cell_shade(&self, channel: usize, col: usize) -> (shade: CellShade)
        ensures
            shade == self.shade(channel as int, col as int),
    {
        let cell = if channel < self.sequence.len() && col < self.sequence[channel].len() {
            self.sequence[channel][col]
        } else {
            None
        };
        match cell {
            Some(hold) => if hold {
                CellShade::Held
            } else {
                CellShade::Gated
            },
            None => if self.steps.current_step as usize == col {
                CellShade::Current
            } else if col % 4 == 0 {
                CellShade::Beat
            } else {
                CellShade::Plain
            },
        }
    }

    /// The name of this kind of module.
    pub fn get_name() -> (name: String)
        ensures
            name@ == "Pattern Sequencer"@,
    {
        "Pattern Sequencer".to_owned()
    }

    /// The cells of the pattern, channel by channel.
    pub closed spec fn pattern(&self) -> Seq<Seq<PatternCell>> {
        pattern_of(self.sequence@)
    }

    /// Where the sequencer stands.
    pub closed spec fn step_state(&self) -> StepState {
        self.steps
    }
}

impl PatternSequencerModule {
    /// The sequencer has computed one block since it was `before`, from the
    /// blocks its inputs read: sample by sample it has moved on with its
    /// step input, and put out a gate for each channel and the sync
    /// signal of the step it is at.
    pub open spec fn computed(
        &self,
        before: Self,
        step_in: Option<Seq<ControlVoltage>>,
        sync_in: Option<Seq<ControlVoltage>>,
    ) -> bool {
        &&& self.bay().ident() == before.bay().ident()
        &&& self.bay().inputs() == before.bay().inputs()
        &&& self.pattern() == before.pattern()
        &&& same_shape(self.bay(), before.bay())
        &&& ({
            let n = block_len(before.bay().outputs()[0]);
            let steps = before.pattern()[0].len();
            let start = before.step_state();
            &&& self.step_state() == start.ran(step_in, sync_in, steps, n)
            &&& forall|i: int|
                0 <= i < n ==> {
                    let cur = (#[trigger] start.ran(
                        step_in,
                        sync_in,
                        steps,
                        (i + 1) as nat,
                    )).current_step as int;
                    &&& 0 <= cur < steps
                    &&& forall|r: int|
                        0 <= r < 8 ==> (#[trigger] self.bay().outputs()[r])->0[i]
                            == gate_of(before.pattern()[r][cur], sample_at(step_in, i))
                    &&& self.bay().outputs()[8]->0[i] == sync_of(cur)
                }
        })
    }

    /// Computes one block.
    pub fn calc(
        &mut self,
        step_in: &AudioBuffer,
        sync_in: &AudioBuffer,
    )
        requires
            old(self).wf(),
        ensures
            final(self).wf(),
            final(self).computed(*old(self), step_in@, sync_in@),
    {
        let ghost start = self.steps;
        let ghost pattern = pattern_of(self.sequence@);
        let ghost steps = pattern[0].len();
        let ghost old_blocks = self.bay.outputs();
        assert(all_present(old_blocks));
        let ghost n_spec = block_len(old_blocks[0]);
        let mut outs: Vec<Vec<ControlVoltage>> = Vec::with_capacity(PATTERN_CHANNELS);
        let mut r: usize = 0;
        while r < PATTERN_CHANNELS
            invariant
                r <= PATTERN_CHANNELS,
                outs.len() == r,
                old_blocks.len() == 9,
                all_present(old_blocks),
                self.bay.wf() == old(self).bay.wf(),
                self.bay.ident() == old(self).bay.ident(),
                self.bay.inputs() == old(self).bay.inputs(),
                self.bay.outputs().len() == 9,
                self.sequence == old(self).sequence,
                self.steps == old(self).steps,
                forall|j: int| 0 <= j < r ==> (#[trigger] outs[j])@ == old_blocks[j]->0,
                forall|j: int| 0 <= j < r ==> (#[trigger] self.bay.outputs()[j]) is None,
                forall|j: int| r <= j < 9 ==> (#[trigger] self.bay.outputs()[j]) == old_blocks[j],
            decreases PATTERN_CHANNELS - r,
        {
            assert(old_blocks[r as int] is Some);
            let block = self.bay.take_output(r).unwrap();
            outs.push(block);
            r += 1;
        }
        assert(old_blocks[8] is Some);
        let mut sync = self.bay.take_output(8).unwrap();
        let ghost taken_bay = self.bay;
        let step_block = step_in.get();
        let sync_block = sync_in.get();
        let n = sync.len();
        let count = self.sequence[0].len();
        assert(count == pattern[0].len());
        let mut idx: usize = 0;
        while idx < n
            invariant
                self.bay == taken_bay,
                self.sequence == old(self).sequence,
                pattern == pattern_of(self.sequence@),
                even_pattern(pattern),
                steps == pattern[0].len(),
                count == steps,
                idx <= n,
                n == sync.len(),
                outs.len() == 8,
                forall|r: int| 0 <= r < 8 ==> (#[trigger] outs[r]).len() == n,
                match step_block {
                    Some(v) => step_in@ == Some(v@),
                    None => step_in@ is None,
                },
                match sync_block {
                    Some(v) => sync_in@ == Some(v@),
                    None => sync_in@ is None,
                },
                self.steps == start.ran(step_in@, sync_in@, steps, idx as nat),
                forall|i: int|
                    0 <= i < idx ==> {
                        let cur = (#[trigger] start.ran(
                            step_in@,
                            sync_in@,
                            steps,
                            (i + 1) as nat,
                        )).current_step as int;
                        &&& 0 <= cur < steps
                        &&& forall|r: int|
                            0 <= r < 8 ==> (#[trigger] outs[r])[i] == gate_of(
                                pattern[r][cur],
                                sample_at(step_in@, i),
                            )
                        &&& sync[i] == sync_of(cur)
                    },
            decreases n - idx,
        {
            let step_sample = read_sample(step_block, idx);
            let sync_sample = read_sample(sync_block, idx);
            let cur = self.steps.advance(step_sample, sync_sample, count);
            assert(self.steps == start.ran(step_in@, sync_in@, steps, (idx + 1) as nat));
            let ghost outs_before = outs@;
            let mut r: usize = 0;
            while r < PATTERN_CHANNELS
                invariant
                    r <= PATTERN_CHANNELS,
                    idx < n,
                    cur < steps,
                    outs.len() == 8,
                    outs_before.len() == 8,
                    self.sequence == old(self).sequence,
                    pattern == pattern_of(self.sequence@),
                    even_pattern(pattern),
                    steps == pattern[0].len(),
                    forall|q: int| 0 <= q < 8 ==> (#[trigger] outs[q]).len() == n,
                    forall|q: int| 0 <= q < 8 ==> (#[trigger] outs_before[q]).len() == n,
                    forall|q: int|
                        0 <= q < r ==> (#[trigger] outs[q])@ == outs_before[q]@.update(
                            idx as int,
                            gate_of(pattern[q][cur as int], step_sample),
                        ),
                    forall|q: int| r <= q < 8 ==> (#[trigger] outs[q]) == outs_before[q],
                decreases PATTERN_CHANNELS - r,
            {
                assert(pattern[r as int].len() == steps);
                assert(self.sequence[r as int]@ == pattern[r as int]);
                let cell = self.sequence[r][cur];
                outs[r].set(idx, gate_for(cell, step_sample));
                r += 1;
            }
            sync.set(
                idx,
                if cur == 0 {
                    UNITY
                } else {
                    SILENCE
                },
            );
            proof {
                assert forall|i: int| 0 <= i < idx + 1 implies {
                    let c = (#[trigger] start.ran(
                        step_in@,
                        sync_in@,
                        steps,
                        (i + 1) as nat,
                    )).current_step as int;
                    &&& 0 <= c < steps
                    &&& forall|q: int|
                        0 <= q < 8 ==> (#[trigger] outs[q])[i] == gate_of(
                            pattern[q][c],
                            sample_at(step_in@, i),
                        )
                    &&& sync[i] == sync_of(c)
                } by {
                    let c = start.ran(step_in@, sync_in@, steps, (i + 1) as nat).current_step as int;
                    assert forall|q: int| 0 <= q < 8 implies (#[trigger] outs[q])[i] == gate_of(
                        pattern[q][c],
                        sample_at(step_in@, i),
                    ) by {
                        assert(outs[q]@ == outs_before[q]@.update(
                            idx as int,
                            gate_of(pattern[q][cur as int], step_sample),
                        ));
                        if i < idx {
                            assert(outs_before[q][i] == gate_of(
                                pattern[q][c],
                                sample_at(step_in@, i),
                            ));
                        }
                    }
                }
            }
            idx += 1;
        }
        let ghost result = outs@;
        let ghost sync_result = sync@;
        self.bay.put_output(8, sync);
        let mut left: usize = PATTERN_CHANNELS;
        while left > 0
            invariant
                left <= PATTERN_CHANNELS,
                outs.len() == left,
                result.len() == 8,
                self.sequence == old(self).sequence,
                self.steps == start.ran(step_in@, sync_in@, steps, n as nat),
                self.bay.wf() == old(self).bay.wf(),
                self.bay.ident() == old(self).bay.ident(),
                self.bay.inputs() == old(self).bay.inputs(),
                self.bay.outputs().len() == 9,
                self.bay.outputs()[8] == Some(sync_result),
                forall|j: int| 0 <= j < left ==> (#[trigger] outs[j]) == result[j],
                forall|j: int| left <= j < 8 ==> (#[trigger] self.bay.outputs()[j]) == Some(result[j]@),
            decreases left,
        {
            let block = outs.pop().unwrap();
            left -= 1;
            self.bay.put_output(left, block);
        }
        proof {
            assert forall|i: int| 0 <= i < self.bay.outputs().len() implies (
            #[trigger] self.bay.outputs()[i]) is Some && block_len(self.bay.outputs()[i])
                == block_len(self.bay.outputs()[0]) by {
                if i < 8 {
                    assert(self.bay.outputs()[i] == Some(result[i]@));
                }
                assert(self.bay.outputs()[0] == Some(result[0]@));
            }
            assert forall|i: int| 0 <= i < self.bay.outputs().len() implies ((
            #[trigger] self.bay.outputs()[i]) is Some <==> old_blocks[i] is Some) && block_len(
                self.bay.outputs()[i],
            ) == block_len(old_blocks[i]) by {
                if i < 8 {
                    assert(self.bay.outputs()[i] == Some(result[i]@));
                }
            }
        }
    }
}

impl SynthModule for PatternSequencerModule {
    closed spec fn bay(&self) -> Patchbay {
        self.bay
    }

    open spec fn wf(&self) -> bool {
        &&& self.bay().wf()
        &&& self.bay().inputs().len() == 2
        &&& self.bay().outputs().len() == 9
        &&& all_present(self.bay().outputs())
        &&& even_pattern(self.pattern())
    }

    open spec fn name(&self) -> Seq<char> {
        "Pattern Sequencer"@
    }

    open spec fn input_label(&self, input_idx: int) -> Option<Seq<char>> {
        if input_idx == 0 {
            Some("Step"@)
        } else if input_idx == 1 {
            Some("Sync"@)
        } else {
            None
        }
    }

    open spec fn output_label(&self, output_idx: int) -> Option<Seq<char>> {
        if output_idx == 0 {
            Some("0"@)
        } else if output_idx == 1 {
            Some("1"@)
        } else if output_idx == 2 {
            Some("2"@)
        } else if output_idx == 3 {
            Some("3"@)
        } else if output_idx == 4 {
            Some("4"@)
        } else if output_idx == 5 {
            Some("5"@)
        } else if output_idx == 6 {
            Some("6"@)
        } else if output_idx == 7 {
            Some("7"@)
        } else if output_idx == 8 {
            Some("Sync"@)
        } else {
            None
        }
    }

    open spec fn dirty(&self) -> bool {
        self.step_state().ui_dirty
    }

    open spec fn same_settings(&self, other: &Self) -> bool {
        &&& self.pattern() == other.pattern()
        &&& self.step_state() == other.step_state()
    }

    open spec fn fits(&self, audio_config: AudioConfig) -> bool {
        &&& sized(self.bay().outputs(), audio_config.buffer_size as nat)
    }

    proof fn lemma_fits(&self, other: &Self, audio_config: AudioConfig) {
        assert(other.same_settings(self) && other.bay().outputs() == self.bay().outputs()
            ==> other.fits(audio_config) == self.fits(audio_config));
    }

    proof fn lemma_settings(&self, other: &Self) {
        assert(self.same_settings(self));
        assert(other.same_settings(self) ==> other.name() == self.name());
        assert(other.same_settings(self) ==> other.dirty() == self.dirty());
        assert(forall|i: int| other.input_label(i) == self.input_label(i));
        assert(forall|i: int| other.output_label(i) == self.output_label(i));
    }

    proof fn lemma_settings_chain(&self, second: &Self, third: &Self) {
        assert(self.same_settings(second) ==> second.same_settings(self));
        assert(self.same_settings(second) && second.same_settings(third) ==> self.same_settings(
            third,
        ));
    }

    fn deep_clone(&self) -> (copy: Self) {
        let mut sequence: Vec<Vec<PatternCell>> = Vec::with_capacity(self.sequence.len());
        let mut r: usize = 0;
        while r < self.sequence.len()
            invariant
                r <= self.sequence.len(),
                sequence.len() == r,
                forall|j: int| 0 <= j < r ==> (#[trigger] sequence[j])@ == self.sequence[j]@,
            decreases self.sequence.len() - r,
        {
            sequence.push(copy_of(&self.sequence[r]));
            r += 1;
        }
        assert(pattern_of(sequence@) =~= pattern_of(self.sequence@));
        Self { bay: self.bay.deep_clone(), sequence, steps: self.steps }
    }

    fn patchbay(&self) -> (bay: &Patchbay) {
        &self.bay
    }

    fn patchbay_mut(&mut self) -> (bay: &mut Patchbay) {
        &mut self.bay
    }

    fn get_name(&self) -> (name: String) {
        Self::get_name()
    }

    fn get_input_label(&self, input_idx: u8) -> (label: Result<Option<String>, ()>) {
        match input_idx {
            0 => Ok(Some("Step".to_owned())),
            1 => Ok(Some("Sync".to_owned())),
            _ => Err(()),
        }
    }

    fn get_output_label(&self, output_idx: u8) -> (label: Result<Option<String>, ()>) {
        match output_idx {
            0 => Ok(Some("0".to_owned())),
            1 => Ok(Some("1".to_owned())),
            2 => Ok(Some("2".to_owned())),
            3 => Ok(Some("3".to_owned())),
            4 => Ok(Some("4".to_owned())),
            5 => Ok(Some("5".to_owned())),
            6 => Ok(Some("6".to_owned())),
            7 => Ok(Some("7".to_owned())),
            8 => Ok(Some("Sync".to_owned())),
            _ => Err(()),
        }
    }

    fn ui_dirty(&self) -> (dirty: bool) {
        self.steps.ui_dirty
    }

    fn set_audio_config(&mut self, audio_config: &AudioConfig)
        ensures
            final(self).same_settings(old(self)),
    {
        proof {
            lemma_resized_sized(self.bay.outputs(), audio_config.buffer_size as nat);
        }
        self.bay.resize_outputs(audio_config.buffer_size);
    }
}


/// A grid sequencer as earlier files hold it: its cells name a row and
/// nothing else.
#[derive(Debug)]
pub struct GridSequencerModuleV0 {
    pub id: ModuleId,
    pub sequence: Vec<Option<u16>>,
    pub octaves: u8,
    pub steps_per_octave: u16,
    pub steps: StepState,
    pub last: ControlVoltage,
}

/// A cell of an earlier file as a cell of today: a cell that sounds does
/// not hold its gate open.
pub open spec fn upgraded(cell: Option<u16>) -> GridCell {
    match cell {
        Some(row) => Some((row, false)),
        None => None,
    }
}

impl GridSequencerModule {
    /// The sequencer that an earlier file holds: the same sequencer, none
    /// of its cells holding its gate open. An error where `restore` gives
    /// one.
    pub fn from_v0(item: GridSequencerModuleV0, audio_config: &AudioConfig) -> (restored: Result<
        Self,
        (),
    >)
        ensures
            restored is Ok <==> MIN_STEPS <= item.sequence.len() <= MAX_STEPS && MIN_OCTAVES
                <= item.octaves <= MAX_OCTAVES && item.steps_per_octave >= 1,
            restored matches Ok(module) ==> {
                &&& module.wf()
                &&& module.fits(*audio_config)
                &&& module.bay().ident() == item.id
                &&& module.bay().inputs() == unconnected(2)
                &&& module.bay().outputs() == silent_blocks(3, audio_config.buffer_size as nat)
                &&& module.sequence() == Seq::new(
                    item.sequence.len() as nat,
                    |i: int| upgraded(item.sequence[i]),
                )
                &&& module.octaves() == item.octaves
                &&& module.steps_per_octave() == item.steps_per_octave
                &&& module.step_state() == item.steps
                &&& module.last() == item.last
            },
    {
        let mut sequence: Vec<GridCell> = Vec::with_capacity(item.sequence.len());
        let mut i: usize = 0;
        while i < item.sequence.len()
            invariant
                i <= item.sequence.len(),
                sequence.len() == i,
                forall|j: int| 0 <= j < i ==> #[trigger] sequence[j] == upgraded(item.sequence[j]),
            decreases item.sequence.len() - i,
        {
            sequence.push(
                match item.sequence[i] {
                    Some(row) => Some((row, false)),
                    None => None,
                },
            );
            i += 1;
        }
        assert(sequence@ =~= Seq::new(
            item.sequence.len() as nat,
            |i: int| upgraded(item.sequence[i]),
        ));
        Self::restore(
            item.id,
            sequence,
            item.octaves,
            item.steps_per_octave,
            item.steps,
            item.last,
            audio_config,
        )
    }
}

} // verus!
