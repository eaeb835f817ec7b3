//! The envelope generator.

use vstd::prelude::*;

use crate::synth::above_threshold;
use crate::synth::buffer::read_sample;
use crate::synth::buffer::sample_at;
use crate::synth::buffer::AudioBuffer;
use crate::synth::ident::fresh_id;
use crate::synth::ident::ModuleId;
use crate::synth::module::all_present;
use crate::synth::module::lemma_resized_sized;
use crate::synth::module::sized;
use crate::synth::module::unconnected;
use crate::synth::module::SynthModule;
use crate::synth::patchbay::silent_blocks;
use crate::synth::patchbay::Patchbay;
use crate::synth::AudioConfig;
use crate::synth::ControlVoltage;
use crate::synth::POSITIVE_INFINITY;
use crate::synth::SILENCE;
use crate::synth::TransitionDetector;
use crate::synth::UNITY;

verus! {

/// The stage an envelope is in.
#[derive(Clone, Copy, Debug, PartialEq, Eq, Structural)]
pub enum ADSRMode {
    Attack,
    Decay,
    Sustain,
    Release,
    /// At rest.
    Idle,
}

/// What an envelope is set to and where it stands.
#[derive(Clone, Copy, Debug, PartialEq, Eq, Structural)]
pub struct Envelope {
    /// The attack time in seconds.
    pub a_sec: ControlVoltage,
    /// The decay time in seconds.
    pub d_sec: ControlVoltage,
    /// The sustain level.
    pub s_val: ControlVoltage,
    /// The release time in seconds.
    pub r_sec: ControlVoltage,
    /// How far the current stage has run, from 0 to 1.
    pub phase: ControlVoltage,
    /// The current stage.
    pub mode: ADSRMode,
    /// The level the attack rises from; outside the attack, the last level.
    pub r_val: ControlVoltage,
    /// The last level of the attack.
    pub from_a_val: ControlVoltage,
    /// The device's sample rate.
    pub sample_rate: u32,
    /// Watches for rising edges of its gate input.
    pub transition_detector: TransitionDetector,
    /// Whether the stage has changed since the display last showed it.
    pub ui_dirty: bool,
}

/// An envelope generator with attack, decay, sustain and release, driven by
/// a gate.
#[derive(Debug)]
pub struct ADSRModule {
    bay: Patchbay,
    env: Envelope,
}

/// The bit pattern of `0.5`.
pub const HALF: ControlVoltage = 0x3F00_0000;

/// The bit pattern of `0.25`.
pub const QUARTER: ControlVoltage = 0x3E80_0000;

impl ADSRModule {
    /// An envelope generator with the given identity and state, its
    /// output silent.
    pub fn restore(id: ModuleId, env: Envelope, audio_config: &AudioConfig) -> (module: Self)
        ensures
            module.wf(),
            module.fits(*audio_config) == (env.sample_rate == audio_config.sample_rate),
            module.bay().ident() == id,
            module.bay().inputs() == unconnected(1),
            module.bay().outputs() == silent_blocks(1, audio_config.buffer_size as nat),
            module.envelope() == env,
    {
        let bay = Patchbay::new(id, 1, 1, audio_config.buffer_size);
        assert(all_present(bay.outputs()));
        Self { bay, env }
    }

    /// A fresh envelope, at rest: attack 0 s, decay 0.5 s, sustain 0.25,
    /// release 0.5 s.
    pub fn new(audio_config: &AudioConfig) -> (module: Self)
        ensures
            module.wf(),
            module.fits(*audio_config),
            module.bay().inputs() == unconnected(1),
            module.bay().outputs() == silent_blocks(1, audio_config.buffer_size as nat),
            module.envelope() == (Envelope {
                a_sec: SILENCE,
                d_sec: HALF,
                s_val: QUARTER,
                r_sec: HALF,
                phase: SILENCE,
                mode: ADSRMode::Idle,
                r_val: SILENCE,
                from_a_val: SILENCE,
                sample_rate: audio_config.sample_rate,
                transition_detector: TransitionDetector { last: true },
                ui_dirty: false,
            }),
    {
        let bay = Patchbay::new(fresh_id(), 1, 1, audio_config.buffer_size);
        assert(all_present(bay.outputs()));
        Self {
            bay,
            env: Envelope {
                a_sec: SILENCE,
                d_sec: HALF,
                s_val: QUARTER,
                r_sec: HALF,
                phase: SILENCE,
                mode: ADSRMode::Idle,
                r_val: SILENCE,
                from_a_val: SILENCE,
                sample_rate: audio_config.sample_rate,
                transition_detector: TransitionDetector::new(),
                ui_dirty: false,
            },
        }
    }

    /// The name of this kind of module.
    pub fn get_name() -> (name: String)
        ensures
            name@ == "ADSR"@,
    {
        "ADSR".to_owned()
    }

    /// What the envelope is set to and where it stands.
    pub closed spec fn envelope(&self) -> Envelope {
        self.env
    }

    /// What the envelope is set to and where it stands.
    pub fn envelope_ref(&self) -> (env: &Envelope)
        ensures
            *env == self.envelope(),
    {
        &self.env
    }

    /// The settings, to be changed.
    pub fn envelope_mut(&mut self) -> (env: &mut Envelope)
        ensures
            *env == old(self).envelope(),
            final(self).envelope() == *final(env),
            final(self).bay() == old(self).bay(),
            final(self).wf() == old(self).wf(),
    {
        &mut self.env
    }
}

/// Whether a bit pattern stands for a number that is at least one.
pub open spec fn at_least_one(val: ControlVoltage) -> bool {
    UNITY <= val <= POSITIVE_INFINITY
}

/// Whether `val` is at least one.
pub fn is_at_least_one(val: ControlVoltage) -> (yes: bool)
    ensures
        yes == at_least_one(val),
{
    UNITY <= val && val <= POSITIVE_INFINITY
}

impl Envelope {
    /// The time that the phase of the current stage advances by: the
    /// attack, decay or release time; none at rest and in the sustain.
    pub open spec fn timing(&self) -> Option<ControlVoltage> {
        match self.mode {
            ADSRMode::Attack => Some(self.a_sec),
            ADSRMode::Decay => Some(self.d_sec),
            ADSRMode::Release => Some(self.r_sec),
            ADSRMode::Sustain => None,
            ADSRMode::Idle => None,
        }
    }

    /// The phase that is advanced: the current one, but zero in a release
    /// that an open gate cuts short.
    pub open spec fn phase_to_advance(&self, gate: ControlVoltage) -> ControlVoltage {
        if self.mode == ADSRMode::Release && above_threshold(gate) {
            SILENCE
        } else {
            self.phase
        }
    }

    /// The envelope after it has seen one gate sample and before it puts
    /// out a level; `advanced` is the phase after the current stage's time
    /// step.
    ///
    /// At rest an open gate starts the attack. The attack ends in the decay
    /// when its phase reaches one, and starts over from the level it has
    /// reached when its gate rises anew. The decay ends in the sustain, the
    /// sustain ends in the release when its gate closes, and a rising gate
    /// sends both back to the attack. The release ends at rest; an open
    /// gate turns it into an attack, whose phase then runs at the pace of
    /// the release for this one sample.
    pub open spec fn moved(&self, gate: ControlVoltage, advanced: ControlVoltage) -> Envelope {
        let open = above_threshold(gate);
        let rising = open && !self.transition_detector.last;
        let seen = Envelope { transition_detector: TransitionDetector { last: open }, ..*self };
        match self.mode {
            ADSRMode::Idle => if open {
                Envelope { phase: SILENCE, mode: ADSRMode::Attack, ui_dirty: true, ..seen }
            } else {
                seen
            },
            ADSRMode::Attack => if at_least_one(advanced) {
                Envelope { phase: SILENCE, mode: ADSRMode::Decay, ui_dirty: true, ..seen }
            } else if rising {
                Envelope { phase: SILENCE, r_val: self.from_a_val, ..seen }
            } else {
                Envelope { phase: advanced, ..seen }
            },
            ADSRMode::Decay => if rising {
                Envelope { phase: SILENCE, mode: ADSRMode::Attack, ui_dirty: true, ..seen }
            } else if at_least_one(advanced) {
                Envelope { phase: SILENCE, mode: ADSRMode::Sustain, ui_dirty: true, ..seen }
            } else {
                Envelope { phase: advanced, ..seen }
            },
            ADSRMode::Sustain => if rising {
                Envelope { phase: SILENCE, mode: ADSRMode::Attack, ui_dirty: true, ..seen }
            } else if !open {
                Envelope { phase: SILENCE, mode: ADSRMode::Release, ui_dirty: true, ..seen }
            } else {
                seen
            },
            ADSRMode::Release => if at_least_one(advanced) {
                Envelope {
                    phase: SILENCE,
                    r_val: SILENCE,
                    mode: ADSRMode::Idle,
                    ui_dirty: true,
                    ..seen
                }
            } else if open {
                Envelope { phase: advanced, mode: ADSRMode::Attack, ui_dirty: true, ..seen }
            } else {
                Envelope { phase: advanced, ..seen }
            },
        }
    }

    /// Whether the level of the current stage has to be computed: at rest
    /// it is zero, and in the sustain it is the sustain level.
    pub open spec fn shaped(&self) -> bool {
        self.mode == ADSRMode::Attack || self.mode == ADSRMode::Decay || self.mode
            == ADSRMode::Release
    }

    /// The level the envelope puts out; `shape` is the level computed for
    /// the attack, the decay or the release.
    pub open spec fn level(&self, shape: ControlVoltage) -> ControlVoltage {
        match self.mode {
            ADSRMode::Idle => SILENCE,
            ADSRMode::Sustain => self.s_val,
            _ => shape,
        }
    }

    /// The envelope after it has put out `level`: in the attack the level
    /// is kept as the level reached, in every other stage as the level a
    /// new attack would rise from.
    pub open spec fn settled(&self, level: ControlVoltage) -> Envelope {
        if self.mode == ADSRMode::Attack {
            Envelope { from_a_val: level, ..*self }
        } else {
            Envelope { r_val: level, ..*self }
        }
    }

    /// One sample takes the envelope from `self` to `after` and puts out
    /// `out`, where `advanced` is what `advance` gave for the phase and
    /// `shape_out` what `shape` gave for the level.
    pub open spec fn steps_with<
        A: Fn(ControlVoltage, u32, ControlVoltage) -> ControlVoltage,
        L: Fn(ADSRMode, ControlVoltage, ControlVoltage, ControlVoltage) -> ControlVoltage,
    >(
        &self,
        gate: ControlVoltage,
        after: Envelope,
        out: ControlVoltage,
        advance: A,
        shape: L,
        advanced: ControlVoltage,
        shape_out: ControlVoltage,
    ) -> bool {
        let mid = self.moved(gate, advanced);
        &&& self.timing() matches Some(secs) ==> call_ensures(
            advance,
            (self.phase_to_advance(gate), self.sample_rate, secs),
            advanced,
        )
        &&& mid.shaped() ==> call_ensures(
            shape,
            (mid.mode, mid.r_val, mid.s_val, mid.phase),
            shape_out,
        )
        &&& out == mid.level(shape_out)
        &&& after == mid.settled(mid.level(shape_out))
    }

    /// One sample takes the envelope from `self` to `after` and puts out
    /// `out`, where `advance` steps the phase and `shape` computes the
    /// level of a stage.
    pub open spec fn steps_to<
        A: Fn(ControlVoltage, u32, ControlVoltage) -> ControlVoltage,
        L: Fn(ADSRMode, ControlVoltage, ControlVoltage, ControlVoltage) -> ControlVoltage,
    >(
        &self,
        gate: ControlVoltage,
        after: Envelope,
        out: ControlVoltage,
        advance: A,
        shape: L,
    ) -> bool {
        exists|advanced: ControlVoltage, shape_out: ControlVoltage| #[trigger]
            self.steps_with(gate, after, out, advance, shape, advanced, shape_out)
    }

    /// Takes the envelope through one sample and returns the level.
    ///
    /// `advance` steps a phase by one sample, given the sample rate and the
    /// time of the stage in seconds; `shape` computes the level of an
    /// attack, decay or release from the stage, the level the attack rises
    /// from, the sustain level and the phase.
    pub fn step<
        A: Fn(ControlVoltage, u32, ControlVoltage) -> ControlVoltage,
        L: Fn(ADSRMode, ControlVoltage, ControlVoltage, ControlVoltage) -> ControlVoltage,
    >(&mut self, gate: ControlVoltage, advance: &A, shape: &L) -> (out: ControlVoltage)
        requires
            forall|p: ControlVoltage, r: u32, t: ControlVoltage| call_requires(*advance, (p, r, t)),
            forall|m: ADSRMode, r: ControlVoltage, s: ControlVoltage, p: ControlVoltage|
                call_requires(*shape, (m, r, s, p)),
        ensures
            old(self).steps_to(gate, *final(self), out, *advance, *shape),
    {
        let ghost before = *self;
        let open = TransitionDetector::is_above_threshold(&gate);
        let rising = self.transition_detector.is_transition(&gate);
        let mut advanced: ControlVoltage = SILENCE;
        match self.mode {
            ADSRMode::Idle => {
                if open {
                    self.phase = SILENCE;
                    self.mode = ADSRMode::Attack;
                    self.ui_dirty = true;
                }
            },
            ADSRMode::Attack => {
                advanced = advance(self.phase, self.sample_rate, self.a_sec);
                self.phase = advanced;
                if is_at_least_one(self.phase) {
                    self.phase = SILENCE;
                    self.mode = ADSRMode::Decay;
                    self.ui_dirty = true;
                } else if rising {
                    self.phase = SILENCE;
                    self.r_val = self.from_a_val;
                }
            },
            ADSRMode::Decay => {
                advanced = advance(self.phase, self.sample_rate, self.d_sec);
                self.phase = advanced;
                if is_at_least_one(self.phase) {
                    self.phase = SILENCE;
                    self.mode = ADSRMode::Sustain;
                    self.ui_dirty = true;
                }
                if rising {
                    self.phase = SILENCE;
                    self.mode = ADSRMode::Attack;
                    self.ui_dirty = true;
                }
            },
            ADSRMode::Sustain => {
                if !open {
                    self.phase = SILENCE;
                    self.mode = ADSRMode::Release;
                    self.ui_dirty = true;
                }
                if rising {
                    self.phase = SILENCE;
                    self.mode = ADSRMode::Attack;
                    self.ui_dirty = true;
                }
            },
            ADSRMode::Release => {
                if open {
                    self.phase = SILENCE;
                    self.mode = ADSRMode::Attack;
                    self.ui_dirty = true;
                }
                advanced = advance(self.phase, self.sample_rate, self.r_sec);
                self.phase = advanced;
                if is_at_least_one(self.phase) {
                    self.phase = SILENCE;
                    self.r_val = SILENCE;
                    self.mode = ADSRMode::Idle;
                    self.ui_dirty = true;
                }
            },
        }
        let ghost mid = *self;
        assert(mid == before.moved(gate, advanced));
        let mut shape_out: ControlVoltage = SILENCE;
        let out = match self.mode {
            ADSRMode::Idle => SILENCE,
            ADSRMode::Sustain => self.s_val,
            _ => {
                shape_out = shape(self.mode, self.r_val, self.s_val, self.phase);
                shape_out
            },
        };
        if self.mode == ADSRMode::Attack {
            self.from_a_val = out;
        } else {
            self.r_val = out;
        }
        assert(*self == mid.settled(mid.level(shape_out)));
        assert(before.steps_with(gate, *self, out, *advance, *shape, advanced, shape_out));
        out
    }

    /// The envelope passes through the states of `trace`, one for each
    /// sample of the block, and puts out the samples of `out`.
    pub open spec fn runs<
        A: Fn(ControlVoltage, u32, ControlVoltage) -> ControlVoltage,
        L: Fn(ADSRMode, ControlVoltage, ControlVoltage, ControlVoltage) -> ControlVoltage,
    >(
        trace: Seq<Envelope>,
        gate: Option<Seq<ControlVoltage>>,
        out: Seq<ControlVoltage>,
        advance: A,
        shape: L,
    ) -> bool {
        &&& trace.len() == out.len() + 1
        &&& forall|i: int|
            0 <= i < out.len() ==> (#[trigger] trace[i]).steps_to(
                sample_at(gate, i),
                trace[i + 1],
                out[i],
                advance,
                shape,
            )
    }
}

impl ADSRModule {
    /// The envelope generator has computed one block since it was `before`,
    /// from the block its gate input reads: sample by sample, the envelope
    /// took one step and its level went to the output.
    pub open spec fn computed<
        A: Fn(ControlVoltage, u32, ControlVoltage) -> ControlVoltage,
        L: Fn(ADSRMode, ControlVoltage, ControlVoltage, ControlVoltage) -> ControlVoltage,
    >(
        &self,
        before: Self,
        gate_in: Option<Seq<ControlVoltage>>,
        advance: A,
        shape: L,
    ) -> bool {
        &&& self.bay().ident() == before.bay().ident()
        &&& self.bay().inputs() == before.bay().inputs()
        &&& self.bay().outputs().len() == 1
        &&& self.bay().outputs()[0] is Some
        &&& self.bay().outputs()[0]->0.len() == before.bay().outputs()[0]->0.len()
        &&& exists|trace: Seq<Envelope>|
            {
                &&& #[trigger] Envelope::runs(
                    trace,
                    gate_in,
                    self.bay().outputs()[0]->0,
                    advance,
                    shape,
                )
                &&& trace[0] == before.envelope()
                &&& trace.last() == self.envelope()
            }
    }

    /// Computes one block: takes the envelope through the samples of the
    /// gate input one by one and writes the levels to the output.
    pub fn calc<
        A: Fn(ControlVoltage, u32, ControlVoltage) -> ControlVoltage,
        L: Fn(ADSRMode, ControlVoltage, ControlVoltage, ControlVoltage) -> ControlVoltage,
    >(
        &mut self,
        gate_in: &AudioBuffer,
        advance: &A,
        shape: &L,
    )
        requires
            old(self).wf(),
            forall|p: ControlVoltage, r: u32, t: ControlVoltage| call_requires(*advance, (p, r, t)),
            forall|m: ADSRMode, r: ControlVoltage, s: ControlVoltage, p: ControlVoltage|
                call_requires(*shape, (m, r, s, p)),
        ensures
            final(self).wf(),
            final(self).computed(*old(self), gate_in@, *advance, *shape),
    {
        let taken = self.bay.take_output(0);
        let mut output = taken.unwrap();
        let gate = gate_in.get();
        let ghost mut trace: Seq<Envelope> = seq![self.env];
        let mut idx: usize = 0;
        while idx < output.len()
            invariant
                idx <= output.len(),
                old(self).bay.outputs().len() == 1,
                old(self).bay.outputs()[0] is Some,
                output.len() == old(self).bay().outputs()[0]->0.len(),
                self.bay.wf() == old(self).bay.wf(),
                self.bay.ident() == old(self).bay.ident(),
                self.bay.inputs() == old(self).bay.inputs(),
                self.bay.outputs() == old(self).bay.outputs().update(0, None),
                match gate {
                    Some(v) => gate_in@ == Some(v@),
                    None => gate_in@ is None,
                },
                forall|p: ControlVoltage, r: u32, t: ControlVoltage|
                    call_requires(*advance, (p, r, t)),
                forall|m: ADSRMode, r: ControlVoltage, s: ControlVoltage, p: ControlVoltage|
                    call_requires(*shape, (m, r, s, p)),
                trace.len() == idx + 1,
                trace[0] == old(self).env,
                trace.last() == self.env,
                forall|i: int|
                    0 <= i < idx ==> (#[trigger] trace[i]).steps_to(
                        sample_at(gate_in@, i),
                        trace[i + 1],
                        output[i],
                        *advance,
                        *shape,
                    ),
            decreases output.len() - idx,
        {
            let sample = read_sample(gate, idx);
            let level = self.env.step(sample, advance, shape);
            output.set(idx, level);
            proof {
                trace = trace.push(self.env);
            }
            idx += 1;
        }
        self.bay.put_output(0, output);
        proof {
            assert(self.bay().outputs()[0] == Some(output@));
            assert(Envelope::runs(trace, gate_in@, output@, *advance, *shape));
            assert(Envelope::runs(trace, gate_in@, self.bay().outputs()[0]->0, *advance, *shape));
            assert(trace[0] == old(self).envelope());
            assert(trace.last() == self.envelope());
        }
    }
}

impl SynthModule for ADSRModule {
    closed spec fn bay(&self) -> Patchbay {
        self.bay
    }

    open spec fn wf(&self) -> bool {
        &&& self.bay().wf()
        &&& self.bay().inputs().len() == 1
        &&& self.bay().outputs().len() == 1
        &&& all_present(self.bay().outputs())
    }

    open spec fn name(&self) -> Seq<char> {
        "ADSR"@
    }

    open spec fn input_label(&self, input_idx: int) -> Option<Seq<char>> {
        if input_idx == 0 {
            Some("Gate"@)
        } else {
            None
        }
    }

    open spec fn output_label(&self, output_idx: int) -> Option<Seq<char>> {
        None
    }

    open spec fn dirty(&self) -> bool {
        self.envelope().ui_dirty
    }

    open spec fn same_settings(&self, other: &Self) -> bool {
        self.envelope() == other.envelope()
    }

    open spec fn fits(&self, audio_config: AudioConfig) -> bool {
        &&& sized(self.bay().outputs(), audio_config.buffer_size as nat)
        &&& self.envelope().sample_rate == audio_config.sample_rate
    }

    proof fn lemma_fits(&self, other: &Self, audio_config: AudioConfig) {
        assert(other.same_settings(self) && other.bay().outputs() == self.bay().outputs()
            ==> other.fits(audio_config) == self.fits(audio_config));
    }

    proof fn lemma_settings(&self, other: &Self) {
        assert(self.same_settings(self));
        assert(other.same_settings(self) ==> other.name() == self.name());
        assert(other.same_settings(self) ==> other.dirty() == self.dirty());
        assert(forall|i: int| other.input_label(i) == self.input_label(i));
        assert(forall|i: int| other.output_label(i) == self.output_label(i));
    }

    proof fn lemma_settings_chain(&self, second: &Self, third: &Self) {
        assert(self.same_settings(second) ==> second.same_settings(self));
        assert(self.same_settings(second) && second.same_settings(third) ==> self.same_settings(
            third,
        ));
    }

    fn deep_clone(&self) -> (copy: Self) {
        Self { bay: self.bay.deep_clone(), env: self.env }
    }

    fn patchbay(&self) -> (bay: &Patchbay) {
        &self.bay
    }

    fn patchbay_mut(&mut self) -> (bay: &mut Patchbay) {
        &mut self.bay
    }

    fn get_name(&self) -> (name: String) {
        Self::get_name()
    }

    fn get_input_label(&self, input_idx: u8) -> (label: Result<Option<String>, ()>) {
        match input_idx {
            0 => Ok(Some("Gate".to_owned())),
            _ => Err(()),
        }
    }

    fn get_output_label(&self, output_idx: u8) -> (label: Result<Option<String>, ()>) {
        match output_idx {
            0 => Ok(None),
            _ => Err(()),
        }
    }

    fn ui_dirty(&self) -> (dirty: bool) {
        self.env.ui_dirty
    }

    fn set_audio_config(&mut self, audio_config: &AudioConfig)
        ensures
            final(self).envelope() == (Envelope {
                sample_rate: audio_config.sample_rate,
                ..old(self).envelope()
            }),
    {
        proof {
            lemma_resized_sized(self.bay.outputs(), audio_config.buffer_size as nat);
        }
        self.env.sample_rate = audio_config.sample_rate;
        self.bay.resize_outputs(audio_config.buffer_size);
    }
}

} // verus!
