//! The audio runtime: hands the blocks of the output module to the device,
//! sample by sample, and says when the next block is due.

use vstd::prelude::*;

use crate::synth::AudioConfig;
use crate::synth::ControlVoltage;
use crate::synth::SILENCE;
use crate::synth::adsr::ADSRMode;
use crate::synth::buffer::read_sample;
use crate::synth::buffer::sample_at;
use crate::synth::buffer::silence;
use crate::synth::buffer::silent_block;
use crate::synth::catalog::SynthModuleType;
use crate::synth::compute::Kernels;
use crate::synth::compute::WaveState;
use crate::synth::filter::InternalMoogFilterState;
use crate::synth::filter::MoogFilterSettings;
use crate::synth::freeverb::FreeverbUpdate;
use crate::synth::graph::any_dirty;
use crate::synth::graph::ui_dirty;
use crate::synth::ident::ModuleId;
use crate::synth::math::MathOperation;
use crate::synth::module::SynthModule;
use crate::synth::oscillator::OscillatorState;
use crate::synth::output::OutputModule;
use crate::ui::SynthModuleWorkspace;
use crate::ui::SynthModuleWorkspaceImpl;

verus! {

/// The samples of a row of staging buffers.
pub open spec fn staged(bufs: Seq<Vec<ControlVoltage>>) -> Seq<Seq<ControlVoltage>> {
    Seq::new(bufs.len(), |c: int| bufs[c]@)
}

/// Feeds the device: a staging buffer for each channel, and the place in
/// the block of the frame that is played next.
#[derive(Debug)]
pub struct AudioEngine {
    src_buf: Vec<Vec<ControlVoltage>>,
    src_buf_idx: usize,
    channels: usize,
    buffer_size: usize,
}

impl AudioEngine {
    /// The staged block of each channel.
    pub closed spec fn blocks(&self) -> Seq<Seq<ControlVoltage>> {
        staged(self.src_buf@)
    }

    /// The place in the block of the frame that is played next.
    pub closed spec fn cursor(&self) -> usize {
        self.src_buf_idx
    }

    /// The number of channels.
    pub closed spec fn channels(&self) -> usize {
        self.channels
    }

    /// The number of frames in a block.
    pub closed spec fn buffer_size(&self) -> usize {
        self.buffer_size
    }

    /// The engine is valid: it has a block of the block length for each of
    /// its channels, at least one channel and at least one frame in a
    /// block, and its cursor is inside the block.
    pub open spec fn wf(&self) -> bool {
        &&& self.channels() >= 1
        &&& self.buffer_size() >= 1
        &&& self.cursor() < self.buffer_size()
        &&& self.blocks().len() == self.channels()
        &&& forall|c: int|
            0 <= c < self.blocks().len() ==> (#[trigger] self.blocks()[c]).len() == self.buffer_size()
    }

    /// An engine for the audio configuration, at the start of a silent
    /// block.
    pub fn new(audio_config: &AudioConfig) -> (engine: Self)
        requires
            audio_config.valid(),
        ensures
            engine.wf(),
            engine.channels() == audio_config.channels,
            engine.buffer_size() == audio_config.buffer_size,
            engine.cursor() == 0,
            forall|c: int, i: int|
                0 <= c < engine.channels() && 0 <= i < engine.buffer_size() ==> (
                #[trigger] engine.blocks()[c][i]) == SILENCE,
    {
        let channels = audio_config.channels as usize;
        let mut src_buf: Vec<Vec<ControlVoltage>> = Vec::with_capacity(channels);
        let mut c: usize = 0;
        while c < channels
            invariant
                c <= channels,
                src_buf.len() == c,
                forall|k: int|
                    0 <= k < c ==> (#[trigger] src_buf[k])@ == silence(
                        audio_config.buffer_size as nat,
                    ),
            decreases channels - c,
        {
            src_buf.push(silent_block(audio_config.buffer_size));
            c += 1;
        }
        AudioEngine { src_buf, src_buf_idx: 0, channels, buffer_size: audio_config.buffer_size }
    }

    /// Whether a new block is due before the sample at place `out_idx` of
    /// the device's buffer is played: the cursor is at the start of the
    /// block and the sample is the first of its frame.
    pub fn wants_block(&self, out_idx: usize) -> (due: bool)
        requires
            self.wf(),
        ensures
            due == (self.cursor() == 0 && out_idx % self.channels() == 0),
    {
        self.src_buf_idx == 0 && out_idx % self.channels == 0
    }

    /// Stages the blocks of the output module: each channel of the engine
    /// gets what the channel of the module holds, and silence where the
    /// module has no such channel or its block ends early.
    pub fn load(&mut self, output: &OutputModule)
        requires
            old(self).wf(),
            output.wf(),
        ensures
            final(self).wf(),
            final(self).channels() == old(self).channels(),
            final(self).buffer_size() == old(self).buffer_size(),
            final(self).cursor() == old(self).cursor(),
            forall|c: int, i: int|
                0 <= c < final(self).channels() && 0 <= i < final(self).buffer_size() ==> (
                #[trigger] final(self).blocks()[c][i]) == sample_at(
                    if c < output.blocks().len() {
                        output.blocks()[c]
                    } else {
                        None
                    },
                    i,
                ),
    {
        proof {
            assert forall|k: int| 0 <= k < self.src_buf.len() implies (#[trigger] self.src_buf[k]).len()
                == self.buffer_size by {
                assert(self.blocks()[k].len() == self.buffer_size);
            }
        }
        let mut c: usize = 0;
        while c < self.channels
            invariant
                c <= self.channels,
                output.wf(),
                self.channels == old(self).channels,
                self.buffer_size == old(self).buffer_size,
                self.src_buf_idx == old(self).src_buf_idx,
                self.src_buf.len() == self.channels,
                forall|k: int| 0 <= k < self.src_buf.len() ==> (#[trigger] self.src_buf[k]).len() == self.buffer_size,
                forall|k: int, i: int|
                    0 <= k < c && 0 <= i < self.buffer_size ==> (#[trigger] self.src_buf[k][i])
                        == sample_at(
                        if k < output.blocks().len() {
                            output.blocks()[k]
                        } else {
                            None
                        },
                        i,
                    ),
            decreases self.channels - c,
        {
            let source = if c <= 255 {
                match output.get_buf(c as u8) {
                    Ok(buffer) => buffer.get(),
                    Err(_) => None,
                }
            } else {
                None
            };
            let ghost read = if c < output.blocks().len() {
                output.blocks()[c as int]
            } else {
                None
            };
            proof {
                output.lemma_channels();
            }
            let mut i: usize = 0;
            while i < self.buffer_size
                invariant
                    i <= self.buffer_size,
                    c < self.channels,
                    self.channels == old(self).channels,
                    self.buffer_size == old(self).buffer_size,
                    self.src_buf_idx == old(self).src_buf_idx,
                    self.src_buf.len() == self.channels,
                    match source {
                        Some(v) => read == Some(v@),
                        None => read is None,
                    },
                    forall|k: int| 0 <= k < self.src_buf.len() ==> (#[trigger] self.src_buf[k]).len() == self.buffer_size,
                    forall|k: int, j: int|
                        0 <= k < c && 0 <= j < self.buffer_size ==> (#[trigger] self.src_buf[k][j])
                            == sample_at(
                            if k < output.blocks().len() {
                                output.blocks()[k]
                            } else {
                                None
                            },
                            j,
                        ),
                    forall|j: int| 0 <= j < i ==> (#[trigger] self.src_buf[c as int][j]) == sample_at(read, j),
                decreases self.buffer_size - i,
            {
                let sample = read_sample(source, i);
                self.src_buf[c].set(i, sample);
                i += 1;
            }
            c += 1;
        }
    }

    /// The sample for place `out_idx` of the device's buffer: the sample
    /// at the cursor of the channel that place belongs to. After the last
    /// sample of a frame the cursor moves on by one, and back to the start
    /// at the end of the block.
    pub fn next_sample(&mut self, out_idx: usize) -> (sample: ControlVoltage)
        requires
            old(self).wf(),
        ensures
            final(self).wf(),
            final(self).channels() == old(self).channels(),
            final(self).buffer_size() == old(self).buffer_size(),
            final(self).blocks() == old(self).blocks(),
            sample == old(self).blocks()[(out_idx % old(self).channels()) as int][old(self).cursor() as int],
            final(self).cursor() == if out_idx % old(self).channels() == old(self).channels() - 1 {
                if old(self).cursor() + 1 >= old(self).buffer_size() {
                    0
                } else {
                    (old(self).cursor() + 1) as usize
                }
            } else {
                old(self).cursor()
            },
    {
        let channel = out_idx % self.channels;
        proof {
            assert(self.blocks()[channel as int].len() == self.buffer_size);
        }
        let sample = self.src_buf[channel][self.src_buf_idx];
        if channel == self.channels - 1 {
            self.src_buf_idx += 1;
            if self.src_buf_idx >= self.buffer_size {
                self.src_buf_idx = 0;
            }
        }
        sample
    }
}

/// The blocks that a module holds for the device: those of an output
/// module, none for any other module.
pub open spec fn device_blocks(module: SynthModuleType) -> Seq<Option<Seq<ControlVoltage>>> {
    match module {
        SynthModuleType::OutputModule(m) => m.blocks(),
        _ => Seq::empty(),
    }
}

/// What channel `c` of the engine stages from the blocks of an output
/// module, at place `i`.
pub open spec fn staged_sample(blocks: Seq<Option<Seq<ControlVoltage>>>, c: int, i: int) -> ControlVoltage {
    sample_at(
        if 0 <= c < blocks.len() {
            blocks[c]
        } else {
            None
        },
        i,
    )
}

impl<
    V: Fn(OscillatorState, Option<ControlVoltage>) -> (ControlVoltage, ControlVoltage, ControlVoltage, u64),
    D: Fn() -> ControlVoltage,
    P: Fn(u16, u16) -> ControlVoltage,
    A: Fn(ControlVoltage, u32, ControlVoltage) -> ControlVoltage,
    S: Fn(ADSRMode, ControlVoltage, ControlVoltage, ControlVoltage) -> ControlVoltage,
    M: Fn(ControlVoltage, ControlVoltage) -> ControlVoltage,
    L: Fn(MoogFilterSettings, ControlVoltage, ControlVoltage) -> (InternalMoogFilterState, ControlVoltage, ControlVoltage, ControlVoltage),
    X: Fn(ControlVoltage, ControlVoltage, ControlVoltage) -> ControlVoltage,
    Y: Fn(MathOperation, ControlVoltage, ControlVoltage) -> ControlVoltage,
    W: Fn(ModuleId) -> WaveState,
    Q: Fn(ControlVoltage) -> usize,
    R: Fn(ControlVoltage, u32, u32, ControlVoltage) -> ControlVoltage,
    T: Fn(ControlVoltage, ControlVoltage) -> (ControlVoltage, ControlVoltage),
    B: Fn(ModuleId, FreeverbUpdate) -> T,
> Kernels<V, D, P, A, S, M, L, X, Y, W, Q, R, B> {
    /// The engine and the workspace go from `engine` and `space` to
    /// `after` and `next` as the sample for place `out_idx` of the
    /// device's buffer is played.
    ///
    /// Where a new block is due, the workspace runs its plan first, and the
    /// engine stages the blocks of the output module the plan was made
    /// for; without such a module the engine keeps what it has staged.
    /// Then the sample at the cursor is played and the cursor moves on.
    pub open spec fn plays_sample(
        &self,
        engine: AudioEngine,
        space: SynthModuleWorkspaceImpl,
        out_idx: usize,
        after: AudioEngine,
        next: SynthModuleWorkspaceImpl,
        sample: ControlVoltage,
    ) -> bool {
        let due = engine.cursor() == 0 && out_idx % engine.channels() == 0;
        let channel = (out_idx % engine.channels()) as int;
        &&& after.channels() == engine.channels()
        &&& after.buffer_size() == engine.buffer_size()
        &&& after.blocks().len() == engine.blocks().len()
        &&& next.same_patch(space)
        &&& if due {
            self.runs(space.modules(), space.plan_of(), next.modules())
        } else {
            next.modules() == space.modules()
        }
        &&& forall|c: int, i: int|
            0 <= c < engine.channels() && 0 <= i < engine.buffer_size() ==> (
            #[trigger] after.blocks()[c][i]) == if due && next.output() is Some {
                staged_sample(device_blocks(next.modules()[next.output()->0 as int]), c, i)
            } else {
                engine.blocks()[c][i]
            }
        &&& sample == after.blocks()[channel][engine.cursor() as int]
        &&& after.cursor() == if channel == engine.channels() - 1 {
            if engine.cursor() + 1 >= engine.buffer_size() {
                0
            } else {
                (engine.cursor() + 1) as usize
            }
        } else {
            engine.cursor()
        }
    }

    /// The engine and the workspace pass through the states of `engines`
    /// and `spaces` as the samples of `data` are played one after the
    /// other.
    pub open spec fn renders(
        &self,
        engines: Seq<AudioEngine>,
        spaces: Seq<SynthModuleWorkspaceImpl>,
        data: Seq<ControlVoltage>,
    ) -> bool {
        &&& engines.len() == data.len() + 1
        &&& spaces.len() == data.len() + 1
        &&& forall|k: int|
            0 <= k < data.len() ==> self.plays_sample(
                #[trigger] engines[k],
                spaces[k],
                k as usize,
                engines[k + 1],
                spaces[k + 1],
                data[k],
            )
    }
}

impl AudioEngine {
    /// Plays the sample for place `out_idx` of the device's buffer:
    /// computes and stages a new block first if one is due.
    pub fn play<
        V: Fn(OscillatorState, Option<ControlVoltage>) -> (ControlVoltage, ControlVoltage, ControlVoltage, u64),
        D: Fn() -> ControlVoltage,
        P: Fn(u16, u16) -> ControlVoltage,
        A: Fn(ControlVoltage, u32, ControlVoltage) -> ControlVoltage,
        S: Fn(ADSRMode, ControlVoltage, ControlVoltage, ControlVoltage) -> ControlVoltage,
        M: Fn(ControlVoltage, ControlVoltage) -> ControlVoltage,
        L: Fn(MoogFilterSettings, ControlVoltage, ControlVoltage) -> (InternalMoogFilterState, ControlVoltage, ControlVoltage, ControlVoltage),
        X: Fn(ControlVoltage, ControlVoltage, ControlVoltage) -> ControlVoltage,
        Y: Fn(MathOperation, ControlVoltage, ControlVoltage) -> ControlVoltage,
        W: Fn(ModuleId) -> WaveState,
        Q: Fn(ControlVoltage) -> usize,
        R: Fn(ControlVoltage, u32, u32, ControlVoltage) -> ControlVoltage,
        T: Fn(ControlVoltage, ControlVoltage) -> (ControlVoltage, ControlVoltage),
        B: Fn(ModuleId, FreeverbUpdate) -> T,
    >(
        &mut self,
        out_idx: usize,
        workspace: &mut SynthModuleWorkspaceImpl,
        kernels: &Kernels<V, D, P, A, S, M, L, X, Y, W, Q, R, B>,
    ) -> (sample: ControlVoltage)
        requires
            old(self).wf(),
            old(workspace).wf(),
            kernels.total(),
        ensures
            final(self).wf(),
            final(workspace).wf(),
            old(workspace).is_planned() ==> final(workspace).is_planned(),
            kernels.plays_sample(
                *old(self),
                *old(workspace),
                out_idx,
                *final(self),
                *final(workspace),
                sample,
            ),
    {
        if self.wants_block(out_idx) {
            workspace.execute(kernels);
            match workspace.get_output() {
                Some(at) => match &workspace.get_modules()[at] {
                    SynthModuleType::OutputModule(output) => self.load(output),
                    _ => {},
                },
                None => {},
            }
        }
        self.next_sample(out_idx)
    }

    /// Fills the buffer of the device: plays a sample for each of its
    /// places, channel by channel and frame by frame, and computes a new
    /// block whenever the one before has been played. Returns whether a
    /// module of the plan has changed in a way that a display should show.
    pub fn render<
        V: Fn(OscillatorState, Option<ControlVoltage>) -> (ControlVoltage, ControlVoltage, ControlVoltage, u64),
        D: Fn() -> ControlVoltage,
        P: Fn(u16, u16) -> ControlVoltage,
        A: Fn(ControlVoltage, u32, ControlVoltage) -> ControlVoltage,
        S: Fn(ADSRMode, ControlVoltage, ControlVoltage, ControlVoltage) -> ControlVoltage,
        M: Fn(ControlVoltage, ControlVoltage) -> ControlVoltage,
        L: Fn(MoogFilterSettings, ControlVoltage, ControlVoltage) -> (InternalMoogFilterState, ControlVoltage, ControlVoltage, ControlVoltage),
        X: Fn(ControlVoltage, ControlVoltage, ControlVoltage) -> ControlVoltage,
        Y: Fn(MathOperation, ControlVoltage, ControlVoltage) -> ControlVoltage,
        W: Fn(ModuleId) -> WaveState,
        Q: Fn(ControlVoltage) -> usize,
        R: Fn(ControlVoltage, u32, u32, ControlVoltage) -> ControlVoltage,
        T: Fn(ControlVoltage, ControlVoltage) -> (ControlVoltage, ControlVoltage),
        B: Fn(ModuleId, FreeverbUpdate) -> T,
    >(
        &mut self,
        data: &mut Vec<ControlVoltage>,
        workspace: &mut SynthModuleWorkspaceImpl,
        kernels: &Kernels<V, D, P, A, S, M, L, X, Y, W, Q, R, B>,
    ) -> (repaint: bool)
        requires
            old(self).wf(),
            old(workspace).wf(),
            kernels.total(),
        ensures
            final(self).wf(),
            final(workspace).wf(),
            old(workspace).is_planned() ==> final(workspace).is_planned(),
            final(data).len() == old(data).len(),
            repaint == any_dirty(final(workspace).modules(), final(workspace).plan_of()),
            exists|engines: Seq<AudioEngine>, spaces: Seq<SynthModuleWorkspaceImpl>|
                {
                    &&& #[trigger] kernels.renders(engines, spaces, final(data)@)
                    &&& engines[0] == *old(self)
                    &&& engines.last() == *final(self)
                    &&& spaces[0] == *old(workspace)
                    &&& spaces.last() == *final(workspace)
                },
    {
        let ghost mut engines: Seq<AudioEngine> = seq![*self];
        let ghost mut spaces: Seq<SynthModuleWorkspaceImpl> = seq![*workspace];
        let mut out_idx: usize = 0;
        while out_idx < data.len()
            invariant
                out_idx <= data.len(),
                data.len() == old(data).len(),
                self.wf(),
                workspace.wf(),
                old(workspace).is_planned() ==> workspace.is_planned(),
                kernels.total(),
                engines.len() == out_idx + 1,
                spaces.len() == out_idx + 1,
                engines[0] == *old(self),
                spaces[0] == *old(workspace),
                engines.last() == *self,
                spaces.last() == *workspace,
                forall|k: int|
                    0 <= k < out_idx ==> kernels.plays_sample(
                        #[trigger] engines[k],
                        spaces[k],
                        k as usize,
                        engines[k + 1],
                        spaces[k + 1],
                        data[k],
                    ),
            decreases data.len() - out_idx,
        {
            let sample = self.play(out_idx, workspace, kernels);
            data.set(out_idx, sample);
            proof {
                engines = engines.push(*self);
                spaces = spaces.push(*workspace);
            }
            out_idx += 1;
        }
        proof {
            assert(kernels.renders(engines, spaces, data@));
        }
        ui_dirty(workspace.get_modules(), workspace.get_plan())
    }
}

/// The program: a workspace, the audio configuration, and the engine once
/// it runs.
#[derive(Debug)]
pub struct SRackApp {
    pub workspace: SynthModuleWorkspace,
    pub audio_config: AudioConfig,
    pub audio_engine: Option<AudioEngine>,
    pub web: bool,
}

/// The sample rate the program runs at.
pub const SAMPLE_RATE: u32 = 48000;

/// The number of channels the program plays.
pub const CHANNELS: u8 = 2;

impl SRackApp {
    /// The program before its engine runs: two channels at 48 kHz, blocks
    /// of `buffer_size` frames.
    pub fn new(workspace: SynthModuleWorkspace, web: bool, buffer_size: usize) -> (app: Self)
        ensures
            app.workspace == workspace,
            app.audio_config == (AudioConfig {
                sample_rate: SAMPLE_RATE,
                buffer_size,
                channels: CHANNELS,
            }),
            app.audio_engine is None,
            app.web == web,
    {
        Self {
            workspace,
            audio_config: AudioConfig { sample_rate: SAMPLE_RATE, buffer_size, channels: CHANNELS },
            audio_engine: None,
            web,
        }
    }

    /// Whether the engine is to be started now: it does not run yet, and,
    /// in a browser, the user has touched the page.
    pub fn should_start(&self, pointer_in_use: bool) -> (start: bool)
        ensures
            start == (self.audio_engine is None && (!self.web || pointer_in_use)),
    {
        self.audio_engine.is_none() && (!self.web || pointer_in_use)
    }
}

} // verus!
