//! The sample player.

use vstd::prelude::*;

use crate::synth::above_threshold;
use crate::synth::buffer::copy_of;
use crate::synth::buffer::read_sample;
use crate::synth::buffer::sample_at;
use crate::synth::buffer::AudioBuffer;
use crate::synth::ident::fresh_id;
use crate::synth::ident::ModuleId;
use crate::synth::module::all_present;
use crate::synth::module::block_len;
use crate::synth::module::lemma_resized_sized;
use crate::synth::module::same_shape;
use crate::synth::module::sized;
use crate::synth::module::unconnected;
use crate::synth::module::SynthModule;
use crate::synth::patchbay::silent_blocks;
use crate::synth::patchbay::Patchbay;
use crate::synth::AudioConfig;
use crate::synth::ControlVoltage;
use crate::synth::SILENCE;
use crate::synth::TransitionDetector;

verus! {

/// A recording: its samples, the rate it was recorded at, and whether the
/// player has yet to notice it.
#[derive(Debug)]
pub struct WaveBox {
    pub samples: Vec<ControlVoltage>,
    pub sample_rate: u32,
    pub fresh: bool,
}

impl WaveBox {
    /// An empty recording.
    pub fn new() -> (wave: Self)
        ensures
            wave.samples@.len() == 0,
            wave.sample_rate == 0,
            !wave.fresh,
    {
        Self { samples: Vec::new(), sample_rate: 0, fresh: false }
    }
}

/// Where a player stands.
#[derive(Clone, Copy, Debug, PartialEq, Eq, Structural)]
pub struct PlayerState {
    /// Watches for rising edges of its gate input.
    pub transition_detector: TransitionDetector,
    /// The place in the recording, in samples.
    pub pos: ControlVoltage,
    /// Whether the recording is running.
    pub playing: bool,
    /// The device's sample rate.
    pub sample_rate: u32,
}

/// Plays a recording from its start whenever its gate input rises, at a speed
/// set by the pitch input.
#[derive(Debug)]
pub struct SampleModule {
    bay: Patchbay,
    player: PlayerState,
    wavebox: WaveBox,
}

impl SampleModule {
    /// A player with the given identity, state and recording, its output
    /// silent.
    pub fn restore(
        id: ModuleId,
        player: PlayerState,
        wavebox: WaveBox,
        audio_config: &AudioConfig,
    ) -> (module: Self)
        ensures
            module.wf(),
            module.fits(*audio_config) == (player.sample_rate == audio_config.sample_rate),
            module.bay().ident() == id,
            module.bay().inputs() == unconnected(2),
            module.bay().outputs() == silent_blocks(1, audio_config.buffer_size as nat),
            module.player() == player,
            module.recording() == wavebox.samples@,
            module.recording_rate() == wavebox.sample_rate,
            module.recording_fresh() == wavebox.fresh,
    {
        let bay = Patchbay::new(id, 2, 1, audio_config.buffer_size);
        assert(all_present(bay.outputs()));
        Self { bay, player, wavebox }
    }

    /// A fresh player with an empty recording, at rest.
    pub fn new(audio_config: &AudioConfig) -> (module: Self)
        ensures
            module.wf(),
            module.fits(*audio_config),
            module.bay().inputs() == unconnected(2),
            module.bay().outputs() == silent_blocks(1, audio_config.buffer_size as nat),
            module.player() == (PlayerState {
                transition_detector: TransitionDetector { last: true },
                pos: SILENCE,
                playing: false,
                sample_rate: audio_config.sample_rate,
            }),
            module.recording().len() == 0,
            module.recording_rate() == 0,
            !module.recording_fresh(),
    {
        let bay = Patchbay::new(fresh_id(), 2, 1, audio_config.buffer_size);
        assert(all_present(bay.outputs()));
        Self {
            bay,
            player: PlayerState {
                transition_detector: TransitionDetector::new(),
                pos: SILENCE,
                playing: false,
                sample_rate: audio_config.sample_rate,
            },
            wavebox: WaveBox::new(),
        }
    }

    /// The name of this kind of module.
    pub fn get_name() -> (name: String)
        ensures
            name@ == "Sample player"@,
    {
        "Sample player".to_owned()
    }

    /// Where the player stands.
    pub closed spec fn player(&self) -> PlayerState {
        self.player
    }

    /// The samples of the recording.
    pub closed spec fn recording(&self) -> Seq<ControlVoltage> {
        self.wavebox.samples@
    }

    /// The rate the recording was made at.
    pub closed spec fn recording_rate(&self) -> u32 {
        self.wavebox.sample_rate
    }

    /// Whether the player has yet to notice the recording.
    pub closed spec fn recording_fresh(&self) -> bool {
        self.wavebox.fresh
    }

    /// Where the player stands.
    pub fn player_ref(&self) -> (state: &PlayerState)
        ensures
            *state == self.player(),
    {
        &self.player
    }

    /// The state of the player, to be changed.
    pub fn player_mut(&mut self) -> (state: &mut PlayerState)
        ensures
            *state == old(self).player(),
            final(self).player() == *final(state),
            final(self).bay() == old(self).bay(),
            final(self).recording() == old(self).recording(),
            final(self).recording_rate() == old(self).recording_rate(),
            final(self).recording_fresh() == old(self).recording_fresh(),
            final(self).wf() == old(self).wf(),
    {
        &mut self.player
    }

    /// The recording.
    pub fn wavebox_ref(&self) -> (wave: &WaveBox)
        ensures
            wave.samples@ == self.recording(),
            wave.sample_rate == self.recording_rate(),
            wave.fresh == self.recording_fresh(),
    {
        &self.wavebox
    }
}

impl PlayerState {
    /// The player after it has looked at its gate: a rising edge starts
    /// the recording from its beginning.
    pub open spec fn triggered(&self, gate: ControlVoltage) -> PlayerState {
        let seen = PlayerState {
            transition_detector: TransitionDetector { last: above_threshold(gate) },
            ..*self
        };
        if above_threshold(gate) && !self.transition_detector.last {
            PlayerState { pos: SILENCE, playing: true, ..seen }
        } else {
            seen
        }
    }

    /// The player stops, back at the beginning, when its place is beyond
    /// the end of the recording.
    pub open spec fn bounded(&self, at: usize, len: nat) -> PlayerState {
        if at >= len {
            PlayerState { pos: SILENCE, playing: false, ..*self }
        } else {
            *self
        }
    }

    /// What the player puts out: the sample at its place, or silence
    /// where the recording has none.
    pub open spec fn heard(wave: Seq<ControlVoltage>, at: usize) -> ControlVoltage {
        if at < wave.len() {
            wave[at as int]
        } else {
            SILENCE
        }
    }

    /// One sample takes the player from `self` to `after` and puts out
    /// `out`. `at` is the place `place` gives for the position after the
    /// gate has been looked at, `read_at` the place that is read (once
    /// more from `place`, if the player had to go back to the beginning),
    /// and `advanced` the position `advance` gives for the next sample.
    pub open spec fn plays_with<
        P: Fn(ControlVoltage) -> usize,
        A: Fn(ControlVoltage, u32, u32, ControlVoltage) -> ControlVoltage,
    >(
        &self,
        gate: ControlVoltage,
        cv: ControlVoltage,
        wave: Seq<ControlVoltage>,
        wave_rate: u32,
        after: PlayerState,
        out: ControlVoltage,
        place: P,
        advance: A,
        at: usize,
        read_at: usize,
        advanced: ControlVoltage,
    ) -> bool {
        let started = self.triggered(gate);
        let kept = started.bounded(at, wave.len());
        &&& call_ensures(place, (started.pos,), at)
        &&& if at >= wave.len() {
            call_ensures(place, (kept.pos,), read_at)
        } else {
            read_at == at
        }
        &&& out == Self::heard(wave, read_at)
        &&& if kept.playing {
            &&& call_ensures(advance, (kept.pos, wave_rate, kept.sample_rate, cv), advanced)
            &&& after == PlayerState { pos: advanced, ..kept }
        } else {
            after == kept
        }
    }

    /// One sample takes the player from `self` to `after` and puts out
    /// `out`, where `place` turns a position into a place in the recording
    /// and `advance` moves a position on by one sample.
    pub open spec fn plays_to<
        P: Fn(ControlVoltage) -> usize,
        A: Fn(ControlVoltage, u32, u32, ControlVoltage) -> ControlVoltage,
    >(
        &self,
        gate: ControlVoltage,
        cv: ControlVoltage,
        wave: Seq<ControlVoltage>,
        wave_rate: u32,
        after: PlayerState,
        out: ControlVoltage,
        place: P,
        advance: A,
    ) -> bool {
        exists|at: usize, read_at: usize, advanced: ControlVoltage| #[trigger]
            self.plays_with(
                gate,
                cv,
                wave,
                wave_rate,
                after,
                out,
                place,
                advance,
                at,
                read_at,
                advanced,
            )
    }

    /// Takes the player through one sample and returns what it puts out.
    ///
    /// A rising gate starts the recording from its beginning. A player
    /// whose place is beyond the end stops and goes back to the beginning.
    /// The sample at the player's place is put out, silence for an empty
    /// recording. A player that is running then moves on: `advance` gives
    /// the next position from the position, the rate of the recording, the
    /// rate of the device and the pitch sample.
    pub fn step<
        P: Fn(ControlVoltage) -> usize,
        A: Fn(ControlVoltage, u32, u32, ControlVoltage) -> ControlVoltage,
    >(
        &mut self,
        gate: ControlVoltage,
        cv: ControlVoltage,
        wave: &WaveBox,
        place: &P,
        advance: &A,
    ) -> (out: ControlVoltage)
        requires
            forall|pos: ControlVoltage| call_requires(*place, (pos,)),
            forall|pos: ControlVoltage, from: u32, to: u32, cv: ControlVoltage|
                call_requires(*advance, (pos, from, to, cv)),
        ensures
            old(self).plays_to(
                gate,
                cv,
                wave.samples@,
                wave.sample_rate,
                *final(self),
                out,
                *place,
                *advance,
            ),
    {
        let ghost before = *self;
        if self.transition_detector.is_transition(&gate) {
            self.pos = SILENCE;
            self.playing = true;
        }
        let at = place(self.pos);
        let mut read_at = at;
        if at >= wave.samples.len() {
            self.pos = SILENCE;
            self.playing = false;
            read_at = place(self.pos);
        }
        let out = if read_at < wave.samples.len() {
            wave.samples[read_at]
        } else {
            SILENCE
        };
        let mut advanced: ControlVoltage = SILENCE;
        if self.playing {
            advanced = advance(self.pos, wave.sample_rate, self.sample_rate, cv);
            self.pos = advanced;
        }
        assert(before.plays_with(
            gate,
            cv,
            wave.samples@,
            wave.sample_rate,
            *self,
            out,
            *place,
            *advance,
            at,
            read_at,
            advanced,
        ));
        out
    }

    /// The player passes through the states of `trace`, one for each
    /// sample of the block, and puts out the samples of `out`.
    pub open spec fn runs<
        P: Fn(ControlVoltage) -> usize,
        A: Fn(ControlVoltage, u32, u32, ControlVoltage) -> ControlVoltage,
    >(
        trace: Seq<PlayerState>,
        gate: Option<Seq<ControlVoltage>>,
        cv: Option<Seq<ControlVoltage>>,
        wave: Seq<ControlVoltage>,
        wave_rate: u32,
        out: Seq<ControlVoltage>,
        place: P,
        advance: A,
    ) -> bool {
        &&& trace.len() == out.len() + 1
        &&& forall|i: int|
            0 <= i < out.len() ==> (#[trigger] trace[i]).plays_to(
                sample_at(gate, i),
                sample_at(cv, i),
                wave,
                wave_rate,
                trace[i + 1],
                out[i],
                place,
                advance,
            )
    }

    /// The player, at rest at the beginning if the recording is fresh.
    pub open spec fn noticed(&self, fresh: bool) -> PlayerState {
        if fresh {
            PlayerState { pos: SILENCE, playing: false, ..*self }
        } else {
            *self
        }
    }
}

/// `place` and `advance` count samples along `positions`: the first
/// position is the beginning, each position stands for its own place in
/// the recording, and `advance` takes each position to the next.
pub open spec fn counts_samples<
    P: Fn(ControlVoltage) -> usize,
    A: Fn(ControlVoltage, u32, u32, ControlVoltage) -> ControlVoltage,
>(positions: Seq<ControlVoltage>, place: P, advance: A) -> bool {
    &&& positions.len() >= 1
    &&& positions[0] == SILENCE
    &&& forall|k: int, at: usize|
        0 <= k < positions.len() && #[trigger] call_ensures(place, (positions[k],), at) ==> at == k
    &&& forall|k: int, from: u32, to: u32, cv: ControlVoltage, next: ControlVoltage|
        0 <= k < positions.len() - 1 && #[trigger] call_ensures(
            advance,
            (positions[k], from, to, cv),
            next,
        ) ==> next == positions[k + 1]
}

/// A recording is played once for a rising gate.
///
/// Let a player run through a block, with a `place` and an `advance` that
/// count samples along `positions`, one position for each sample of the
/// recording and one more. Let its gate rise at sample `t` and stay open
/// while the recording lasts. Then sample `t + k` of the output is sample
/// `k` of the recording, for every sample of the recording, and the player
/// is running after each of them. With the sample after the last the
/// player stops and stands at the beginning again, whose sample it puts
/// out.
pub proof fn lemma_plays_once<
    P: Fn(ControlVoltage) -> usize,
    A: Fn(ControlVoltage, u32, u32, ControlVoltage) -> ControlVoltage,
>(
    trace: Seq<PlayerState>,
    gate: Option<Seq<ControlVoltage>>,
    cv: Option<Seq<ControlVoltage>>,
    wave: Seq<ControlVoltage>,
    wave_rate: u32,
    out: Seq<ControlVoltage>,
    place: P,
    advance: A,
    positions: Seq<ControlVoltage>,
    t: int,
)
    requires
        PlayerState::runs(trace, gate, cv, wave, wave_rate, out, place, advance),
        counts_samples(positions, place, advance),
        positions.len() == wave.len() + 1,
        wave.len() >= 1,
        0 <= t,
        t + wave.len() < out.len(),
        !trace[t].transition_detector.last,
        forall|i: int| t <= i <= t + wave.len() ==> above_threshold(#[trigger] sample_at(gate, i)),
    ensures
        forall|k: int|
            0 <= k < wave.len() ==> (#[trigger] out[t + k]) == wave[k] && trace[t + k + 1].playing,
        out[t + wave.len()] == wave[0],
        !trace[t + wave.len() + 1].playing,
        trace[t + wave.len() + 1].pos == SILENCE,
{
    let n = wave.len() as int;
    lemma_playing(trace, gate, cv, wave, wave_rate, out, place, advance, positions, t, n - 1);
    assert forall|k: int| 0 <= k < n implies (#[trigger] out[t + k]) == wave[k] && trace[t + k
        + 1].playing by {
        lemma_playing(trace, gate, cv, wave, wave_rate, out, place, advance, positions, t, k);
    }
    let before = trace[t + n];
    let after = trace[t + n + 1];
    assert(before.plays_to(
        sample_at(gate, t + n),
        sample_at(cv, t + n),
        wave,
        wave_rate,
        after,
        out[t + n],
        place,
        advance,
    ));
    let (at, read_at, advanced) = choose|at: usize, read_at: usize, advanced: ControlVoltage| #[trigger]
        before.plays_with(
            sample_at(gate, t + n),
            sample_at(cv, t + n),
            wave,
            wave_rate,
            after,
            out[t + n],
            place,
            advance,
            at,
            read_at,
            advanced,
        );
    let started = before.triggered(sample_at(gate, t + n));
    assert(started.pos == positions[n]);
    assert(call_ensures(place, (positions[n],), at));
    assert(at == n);
    let kept = started.bounded(at, wave.len());
    assert(kept.pos == positions[0]);
    assert(call_ensures(place, (positions[0],), read_at));
    assert(read_at == 0);
}

/// While the recording lasts, the player puts out its samples one by one
/// and moves on along the positions.
proof fn lemma_playing<
    P: Fn(ControlVoltage) -> usize,
    A: Fn(ControlVoltage, u32, u32, ControlVoltage) -> ControlVoltage,
>(
    trace: Seq<PlayerState>,
    gate: Option<Seq<ControlVoltage>>,
    cv: Option<Seq<ControlVoltage>>,
    wave: Seq<ControlVoltage>,
    wave_rate: u32,
    out: Seq<ControlVoltage>,
    place: P,
    advance: A,
    positions: Seq<ControlVoltage>,
    t: int,
    k: int,
)
    requires
        PlayerState::runs(trace, gate, cv, wave, wave_rate, out, place, advance),
        counts_samples(positions, place, advance),
        positions.len() == wave.len() + 1,
        wave.len() >= 1,
        0 <= t,
        t + wave.len() < out.len(),
        !trace[t].transition_detector.last,
        forall|i: int| t <= i <= t + wave.len() ==> above_threshold(#[trigger] sample_at(gate, i)),
        0 <= k < wave.len(),
    ensures
        out[t + k] == wave[k],
        trace[t + k + 1].playing,
        trace[t + k + 1].pos == positions[k + 1],
        trace[t + k + 1].transition_detector.last,
    decreases k,
{
    if k > 0 {
        lemma_playing(trace, gate, cv, wave, wave_rate, out, place, advance, positions, t, k - 1);
    }
    let before = trace[t + k];
    let after = trace[t + k + 1];
    assert(above_threshold(sample_at(gate, t + k)));
    assert(before.plays_to(
        sample_at(gate, t + k),
        sample_at(cv, t + k),
        wave,
        wave_rate,
        after,
        out[t + k],
        place,
        advance,
    ));
    let (at, read_at, advanced) = choose|at: usize, read_at: usize, advanced: ControlVoltage| #[trigger]
        before.plays_with(
            sample_at(gate, t + k),
            sample_at(cv, t + k),
            wave,
            wave_rate,
            after,
            out[t + k],
            place,
            advance,
            at,
            read_at,
            advanced,
        );
    let started = before.triggered(sample_at(gate, t + k));
    assert(started.pos == positions[k]);
    assert(started.playing);
    assert(call_ensures(place, (positions[k],), at));
    assert(at == k);
    let kept = started.bounded(at, wave.len());
    assert(kept == started);
    assert(call_ensures(advance, (positions[k], wave_rate, kept.sample_rate, sample_at(cv, t + k)), advanced));
}

/// The last sample of a block; silence for no block and for an empty one.
pub open spec fn last_sample(block: Option<Seq<ControlVoltage>>) -> ControlVoltage {
    match block {
        Some(samples) => if samples.len() > 0 {
            samples.last()
        } else {
            SILENCE
        },
        None => SILENCE,
    }
}

impl SampleModule {
    /// The player is as it was `before`, but for its recording: it holds
    /// `samples`, recorded at `sample_rate`, and has not noticed them yet.
    pub open spec fn loaded(
        &self,
        before: Self,
        samples: Seq<ControlVoltage>,
        sample_rate: u32,
    ) -> bool {
        &&& self.recording() == samples
        &&& self.recording_rate() == sample_rate
        &&& self.recording_fresh()
        &&& self.player() == before.player()
        &&& self.bay() == before.bay()
        &&& self.wf() == before.wf()
    }

    /// Gives the player a new recording, which it will notice at its next
    /// block.
    pub fn set_wavebox(&mut self, samples: Vec<ControlVoltage>, sample_rate: u32)
        ensures
            final(self).loaded(*old(self), samples@, sample_rate),
    {
        self.wavebox = WaveBox { samples, sample_rate, fresh: true };
    }

    /// The player has computed one block since it was `before`, from the
    /// blocks its inputs read: it has taken note of a new recording, and
    /// then played it sample by sample.
    pub open spec fn computed<
        P: Fn(ControlVoltage) -> usize,
        A: Fn(ControlVoltage, u32, u32, ControlVoltage) -> ControlVoltage,
    >(
        &self,
        before: Self,
        gate_in: Option<Seq<ControlVoltage>>,
        cv_in: Option<Seq<ControlVoltage>>,
        place: P,
        advance: A,
    ) -> bool {
        &&& self.bay().ident() == before.bay().ident()
        &&& self.bay().inputs() == before.bay().inputs()
        &&& same_shape(self.bay(), before.bay())
        &&& self.recording() == before.recording()
        &&& self.recording_rate() == before.recording_rate()
        &&& !self.recording_fresh()
        &&& exists|trace: Seq<PlayerState>|
            {
                &&& #[trigger] PlayerState::runs(
                    trace,
                    gate_in,
                    cv_in,
                    before.recording(),
                    before.recording_rate(),
                    self.bay().outputs()[0]->0,
                    place,
                    advance,
                )
                &&& trace[0] == before.player().noticed(before.recording_fresh())
                &&& trace.last() == self.player()
            }
    }

    /// Computes one block. `place` turns a position into a place in the
    /// recording; `advance` moves a position on by one sample.
    pub fn calc<
        P: Fn(ControlVoltage) -> usize,
        A: Fn(ControlVoltage, u32, u32, ControlVoltage) -> ControlVoltage,
    >(
        &mut self,
        gate_in: &AudioBuffer,
        cv_in: &AudioBuffer,
        place: &P,
        advance: &A,
    )
        requires
            old(self).wf(),
            forall|pos: ControlVoltage| call_requires(*place, (pos,)),
            forall|pos: ControlVoltage, from: u32, to: u32, cv: ControlVoltage|
                call_requires(*advance, (pos, from, to, cv)),
        ensures
            final(self).wf(),
            final(self).computed(*old(self), gate_in@, cv_in@, *place, *advance),
    {
        assert(all_present(self.bay.outputs()));
        let mut output = self.bay.take_output(0).unwrap();
        let ghost taken_bay = self.bay;
        let ghost len = output.len();
        if self.wavebox.fresh {
            self.player.pos = SILENCE;
            self.player.playing = false;
            self.wavebox.fresh = false;
        }
        let gate_block = gate_in.get();
        let cv_block = cv_in.get();
        let ghost mut trace: Seq<PlayerState> = seq![self.player];
        let mut idx: usize = 0;
        while idx < output.len()
            invariant
                self.bay == taken_bay,
                idx <= output.len(),
                output.len() == len,
                self.wavebox.samples@ == old(self).wavebox.samples@,
                self.wavebox.sample_rate == old(self).wavebox.sample_rate,
                !self.wavebox.fresh,
                match gate_block {
                    Some(v) => gate_in@ == Some(v@),
                    None => gate_in@ is None,
                },
                match cv_block {
                    Some(v) => cv_in@ == Some(v@),
                    None => cv_in@ is None,
                },
                forall|pos: ControlVoltage| call_requires(*place, (pos,)),
                forall|pos: ControlVoltage, from: u32, to: u32, cv: ControlVoltage|
                    call_requires(*advance, (pos, from, to, cv)),
                trace.len() == idx + 1,
                trace[0] == old(self).player.noticed(old(self).wavebox.fresh),
                trace.last() == self.player,
                forall|i: int|
                    0 <= i < idx ==> (#[trigger] trace[i]).plays_to(
                        sample_at(gate_in@, i),
                        sample_at(cv_in@, i),
                        self.wavebox.samples@,
                        self.wavebox.sample_rate,
                        trace[i + 1],
                        output[i],
                        *place,
                        *advance,
                    ),
            decreases output.len() - idx,
        {
            let gate = read_sample(gate_block, idx);
            let cv = read_sample(cv_block, idx);
            let out = self.player.step(gate, cv, &self.wavebox, place, advance);
            output.set(idx, out);
            proof {
                trace = trace.push(self.player);
            }
            idx += 1;
        }
        self.bay.put_output(0, output);
        proof {
            assert(self.bay.outputs()[0] == Some(output@));
            assert(PlayerState::runs(
                trace,
                gate_in@,
                cv_in@,
                old(self).recording(),
                old(self).recording_rate(),
                self.bay().outputs()[0]->0,
                *place,
                *advance,
            ));
            assert(trace[0] == old(self).player().noticed(old(self).recording_fresh()));
            assert(trace.last() == self.player());
        }
    }

    /// The player has computed one block since it was `before` while its
    /// recording was being loaded: the output is silent, and of its gate
    /// input the player remembers where it ended.
    pub open spec fn computed_loading(
        &self,
        before: Self,
        gate_in: Option<Seq<ControlVoltage>>,
    ) -> bool {
        &&& self.bay().ident() == before.bay().ident()
        &&& self.bay().inputs() == before.bay().inputs()
        &&& same_shape(self.bay(), before.bay())
        &&& self.recording() == before.recording()
        &&& self.recording_rate() == before.recording_rate()
        &&& self.recording_fresh() == before.recording_fresh()
        &&& self.player() == (PlayerState {
            transition_detector: TransitionDetector {
                last: above_threshold(last_sample(gate_in)),
            },
            ..before.player()
        })
        &&& forall|i: int|
            0 <= i < block_len(self.bay().outputs()[0]) ==> (
            #[trigger] self.bay().outputs()[0]->0[i]) == SILENCE
    }

    /// Computes one block while a recording is being loaded: the output is
    /// silence, and the player only takes note of the last sample of the
    /// gate input, so that an edge across the block is not lost.
    pub fn calc_loading(
        &mut self,
        gate_in: &AudioBuffer,
    )
        requires
            old(self).wf(),
        ensures
            final(self).wf(),
            final(self).computed_loading(*old(self), gate_in@),
    {
        assert(all_present(self.bay.outputs()));
        let mut output = self.bay.take_output(0).unwrap();
        let ghost len = output.len();
        let last = match gate_in.get() {
            Some(block) => if block.len() > 0 {
                block[block.len() - 1]
            } else {
                SILENCE
            },
            None => SILENCE,
        };
        let _ = self.player.transition_detector.is_transition(&last);
        let mut idx: usize = 0;
        while idx < output.len()
            invariant
                idx <= output.len(),
                output.len() == len,
                forall|i: int| 0 <= i < idx ==> output[i] == SILENCE,
            decreases output.len() - idx,
        {
            output.set(idx, SILENCE);
            idx += 1;
        }
        self.bay.put_output(0, output);
        assert(self.bay.outputs()[0] == Some(output@));
    }
}

impl SynthModule for SampleModule {
    closed spec fn bay(&self) -> Patchbay {
        self.bay
    }

    open spec fn wf(&self) -> bool {
        &&& self.bay().wf()
        &&& self.bay().inputs().len() == 2
        &&& self.bay().outputs().len() == 1
        &&& all_present(self.bay().outputs())
    }

    open spec fn name(&self) -> Seq<char> {
        "Sample player"@
    }

    open spec fn input_label(&self, input_idx: int) -> Option<Seq<char>> {
        if input_idx == 0 {
            Some("Gate"@)
        } else if input_idx == 1 {
            Some("CV"@)
        } else {
            None
        }
    }

    open spec fn output_label(&self, output_idx: int) -> Option<Seq<char>> {
        None
    }

    open spec fn dirty(&self) -> bool {
        false
    }

    open spec fn same_settings(&self, other: &Self) -> bool {
        &&& self.player() == other.player()
        &&& self.recording() == other.recording()
        &&& self.recording_rate() == other.recording_rate()
        &&& self.recording_fresh() == other.recording_fresh()
    }

    open spec fn fits(&self, audio_config: AudioConfig) -> bool {
        &&& sized(self.bay().outputs(), audio_config.buffer_size as nat)
        &&& self.player().sample_rate == audio_config.sample_rate
    }

    proof fn lemma_fits(&self, other: &Self, audio_config: AudioConfig) {
        assert(other.same_settings(self) && other.bay().outputs() == self.bay().outputs()
            ==> other.fits(audio_config) == self.fits(audio_config));
    }

    proof fn lemma_settings(&self, other: &Self) {
        assert(self.same_settings(self));
        assert(other.same_settings(self) ==> other.name() == self.name());
        assert(other.same_settings(self) ==> other.dirty() == self.dirty());
        assert(forall|i: int| other.input_label(i) == self.input_label(i));
        assert(forall|i: int| other.output_label(i) == self.output_label(i));
    }

    proof fn lemma_settings_chain(&self, second: &Self, third: &Self) {
        assert(self.same_settings(second) ==> second.same_settings(self));
        assert(self.same_settings(second) && second.same_settings(third) ==> self.same_settings(
            third,
        ));
    }

    fn deep_clone(&self) -> (copy: Self) {
        Self {
            bay: self.bay.deep_clone(),
            player: self.player,
            wavebox: WaveBox {
                samples: copy_of(&self.wavebox.samples),
                sample_rate: self.wavebox.sample_rate,
                fresh: self.wavebox.fresh,
            },
        }
    }

    fn patchbay(&self) -> (bay: &Patchbay) {
        &self.bay
    }

    fn patchbay_mut(&mut self) -> (bay: &mut Patchbay) {
        &mut self.bay
    }

    fn get_name(&self) -> (name: String) {
        Self::get_name()
    }

    fn get_input_label(&self, input_idx: u8) -> (label: Result<Option<String>, ()>) {
        match input_idx {
            0 => Ok(Some("Gate".to_owned())),
            1 => Ok(Some("CV".to_owned())),
            _ => Err(()),
        }
    }

    fn get_output_label(&self, output_idx: u8) -> (label: Result<Option<String>, ()>) {
        match output_idx {
            0 => Ok(None),
            _ => Err(()),
        }
    }

    fn ui_dirty(&self) -> (dirty: bool) {
        false
    }

    fn set_audio_config(&mut self, audio_config: &AudioConfig)
        ensures
            final(self).player() == (PlayerState {
                sample_rate: audio_config.sample_rate,
                ..old(self).player()
            }),
            final(self).recording() == old(self).recording(),
            final(self).recording_rate() == old(self).recording_rate(),
            final(self).recording_fresh() == old(self).recording_fresh(),
    {
        proof {
            lemma_resized_sized(self.bay.outputs(), audio_config.buffer_size as nat);
        }
        self.player.sample_rate = audio_config.sample_rate;
        self.bay.resize_outputs(audio_config.buffer_size);
    }
}

} // verus!
