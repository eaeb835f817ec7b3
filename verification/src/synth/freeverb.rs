//! The reverberator.

use vstd::prelude::*;

use crate::synth::buffer::read_sample;
use crate::synth::buffer::sample_at;
use crate::synth::buffer::AudioBuffer;
use crate::synth::ident::fresh_id;
use crate::synth::ident::ModuleId;
use crate::synth::module::all_present;
use crate::synth::module::block_len;
use crate::synth::module::lemma_resized_sized;
use crate::synth::module::same_shape;
use crate::synth::module::sized;
use crate::synth::module::unconnected;
use crate::synth::module::SynthModule;
use crate::synth::patchbay::silent_blocks;
use crate::synth::patchbay::Patchbay;
use crate::synth::AudioConfig;
use crate::synth::ControlVoltage;

verus! {

/// The bit pattern of the binary64 number `0.5`.
pub const HALF_WIDE: u64 = 0x3FE0_0000_0000_0000;

/// The bit pattern of the binary64 number `1.0`.
pub const UNITY_WIDE: u64 = 0x3FF0_0000_0000_0000;

/// The settings of a reverberator. Each is kept twice: as the control
/// shows it (`_ctl`), and as the processor last took it. The numbers are bit
/// patterns of binary64 numbers.
#[derive(Clone, Copy, Debug, PartialEq, Eq, Structural)]
pub struct FreeverbSettings {
    /// The sample rate the processor runs at.
    pub sample_rate: usize,
    /// Whether a processor for `sample_rate` has been set up.
    pub primed: bool,
    pub dampening: u64,
    pub dampening_ctl: u64,
    pub freeze: bool,
    pub freeze_ctl: bool,
    pub wet: u64,
    pub wet_ctl: u64,
    pub width: u64,
    pub width_ctl: u64,
    pub room_size: u64,
    pub room_size_ctl: u64,
    pub dry: u64,
    pub dry_ctl: u64,
}

/// A stereo reverberator.
#[derive(Debug)]
pub struct FreeverbModule {
    bay: Patchbay,
    set: FreeverbSettings,
}

impl FreeverbModule {
    /// A reverberator with the given identity and settings, its outputs
    /// silent.
    pub fn restore(id: ModuleId, set: FreeverbSettings, audio_config: &AudioConfig) -> (module:
        Self)
        ensures
            module.wf(),
            module.fits(*audio_config) == (set.sample_rate == audio_config.sample_rate),
            module.bay().ident() == id,
            module.bay().inputs() == unconnected(2),
            module.bay().outputs() == silent_blocks(2, audio_config.buffer_size as nat),
            module.settings() == set,
    {
        let bay = Patchbay::new(id, 2, 2, audio_config.buffer_size);
        assert(all_present(bay.outputs()));
        Self { bay, set }
    }

    /// A fresh reverberator without a processor: dampening, width and room
    /// size 0.5, wet 1, dry 0, not frozen.
    pub fn new(audio_config: &AudioConfig) -> (module: Self)
        ensures
            module.wf(),
            module.fits(*audio_config),
            module.bay().inputs() == unconnected(2),
            module.bay().outputs() == silent_blocks(2, audio_config.buffer_size as nat),
            module.settings() == (FreeverbSettings {
                sample_rate: audio_config.sample_rate as usize,
                primed: false,
                dampening: HALF_WIDE,
                dampening_ctl: HALF_WIDE,
                freeze: false,
                freeze_ctl: false,
                wet: UNITY_WIDE,
                wet_ctl: UNITY_WIDE,
                width: HALF_WIDE,
                width_ctl: HALF_WIDE,
                room_size: HALF_WIDE,
                room_size_ctl: HALF_WIDE,
                dry: 0,
                dry_ctl: 0,
            }),
    {
        let bay = Patchbay::new(fresh_id(), 2, 2, audio_config.buffer_size);
        assert(all_present(bay.outputs()));
        Self {
            bay,
            set: FreeverbSettings {
                sample_rate: audio_config.sample_rate as usize,
                primed: false,
                dampening: HALF_WIDE,
                dampening_ctl: HALF_WIDE,
                freeze: false,
                freeze_ctl: false,
                wet: UNITY_WIDE,
                wet_ctl: UNITY_WIDE,
                width: HALF_WIDE,
                width_ctl: HALF_WIDE,
                room_size: HALF_WIDE,
                room_size_ctl: HALF_WIDE,
                dry: 0,
                dry_ctl: 0,
            },
        }
    }

    /// The name of this kind of module.
    pub fn get_name() -> (name: String)
        ensures
            name@ == "Freeverb"@,
    {
        "Freeverb".to_owned()
    }

    /// The settings.
    pub closed spec fn settings(&self) -> FreeverbSettings {
        self.set
    }

    /// The settings.
    pub fn settings_ref(&self) -> (state: &FreeverbSettings)
        ensures
            *state == self.settings(),
    {
        &self.set
    }

    /// The reverberator is as it was `before`, and its processor has been
    /// told of its settings.
    pub open spec fn retuned(&self, before: Self) -> bool {
        &&& self.settings() == before.settings().updated()
        &&& self.bay() == before.bay()
        &&& self.wf() == before.wf()
    }

    /// Works out what the processor has to be told before a block, and
    /// notes that it has been told.
    pub fn retune(&mut self) -> (update: FreeverbUpdate)
        ensures
            update == old(self).settings().update(),
            final(self).retuned(*old(self)),
    {
        self.set.set_freeverb()
    }

    /// The settings, to be changed.
    pub fn settings_mut(&mut self) -> (state: &mut FreeverbSettings)
        ensures
            *state == old(self).settings(),
            final(self).settings() == *final(state),
            final(self).bay() == old(self).bay(),
            final(self).wf() == old(self).wf(),
    {
        &mut self.set
    }
}

/// What the processor has to be told before a block: whether it has to be
/// set up anew, the sample rate it runs at, and each setting that it has
/// not taken yet.
#[derive(Clone, Copy, Debug, PartialEq, Eq, Structural)]
pub struct FreeverbUpdate {
    pub rebuild: bool,
    pub sample_rate: usize,
    pub dampening: Option<u64>,
    pub freeze: Option<bool>,
    pub wet: Option<u64>,
    pub width: Option<u64>,
    pub room_size: Option<u64>,
    pub dry: Option<u64>,
}

impl FreeverbSettings {
    /// What the processor has to be told: all settings if it has to be set
    /// up, else those whose control shows another value than the
    /// processor took.
    pub open spec fn update(&self) -> FreeverbUpdate {
        let all = !self.primed;
        FreeverbUpdate {
            rebuild: all,
            sample_rate: self.sample_rate,
            dampening: if all || self.dampening_ctl != self.dampening {
                Some(self.dampening_ctl)
            } else {
                None
            },
            freeze: if all || self.freeze_ctl != self.freeze {
                Some(self.freeze_ctl)
            } else {
                None
            },
            wet: if all || self.wet_ctl != self.wet {
                Some(self.wet_ctl)
            } else {
                None
            },
            width: if all || self.width_ctl != self.width {
                Some(self.width_ctl)
            } else {
                None
            },
            room_size: if all || self.room_size_ctl != self.room_size {
                Some(self.room_size_ctl)
            } else {
                None
            },
            dry: if all || self.dry_ctl != self.dry {
                Some(self.dry_ctl)
            } else {
                None
            },
        }
    }

    /// The settings after the processor has been told: it is set up, and
    /// has taken what the controls show.
    pub open spec fn updated(&self) -> FreeverbSettings {
        FreeverbSettings {
            primed: true,
            dampening: self.dampening_ctl,
            freeze: self.freeze_ctl,
            wet: self.wet_ctl,
            width: self.width_ctl,
            room_size: self.room_size_ctl,
            dry: self.dry_ctl,
            ..*self
        }
    }

    /// Works out what the processor has to be told before a block, and
    /// notes that it has been told.
    pub fn set_freeverb(&mut self) -> (update: FreeverbUpdate)
        ensures
            update == old(self).update(),
            *final(self) == old(self).updated(),
    {
        let all = !self.primed;
        let mut update = FreeverbUpdate {
            rebuild: all,
            sample_rate: self.sample_rate,
            dampening: None,
            freeze: None,
            wet: None,
            width: None,
            room_size: None,
            dry: None,
        };
        self.primed = true;
        if self.dampening_ctl != self.dampening || all {
            self.dampening = self.dampening_ctl;
            update.dampening = Some(self.dampening);
        }
        if self.freeze_ctl != self.freeze || all {
            self.freeze = self.freeze_ctl;
            update.freeze = Some(self.freeze);
        }
        if self.wet_ctl != self.wet || all {
            self.wet = self.wet_ctl;
            update.wet = Some(self.wet);
        }
        if self.width_ctl != self.width || all {
            self.width = self.width_ctl;
            update.width = Some(self.width);
        }
        if self.room_size_ctl != self.room_size || all {
            self.room_size = self.room_size_ctl;
            update.room_size = Some(self.room_size);
        }
        if self.dry_ctl != self.dry || all {
            self.dry = self.dry_ctl;
            update.dry = Some(self.dry);
        }
        update
    }
}

impl FreeverbModule {
    /// The reverberator has computed one block since it was `before`, from
    /// the blocks its inputs read: each frame of the two outputs is what
    /// `tick` gave for the frame of the two inputs.
    pub open spec fn computed<T: Fn(ControlVoltage, ControlVoltage) -> (ControlVoltage, ControlVoltage)>(
        &self,
        before: Self,
        left_in: Option<Seq<ControlVoltage>>,
        right_in: Option<Seq<ControlVoltage>>,
        tick: T,
    ) -> bool {
        &&& self.bay().ident() == before.bay().ident()
        &&& self.bay().inputs() == before.bay().inputs()
        &&& self.settings() == before.settings()
        &&& same_shape(self.bay(), before.bay())
        &&& forall|i: int|
            0 <= i < block_len(self.bay().outputs()[0]) ==> call_ensures(
                tick,
                (sample_at(left_in, i), sample_at(right_in, i)),
                (
                    #[trigger] self.bay().outputs()[0]->0[i],
                    self.bay().outputs()[1]->0[i],
                ),
            )
    }

    /// Computes one block. `tick` hands a pair of samples to the processor
    /// and returns the pair it gives back.
    pub fn calc<T: Fn(ControlVoltage, ControlVoltage) -> (ControlVoltage, ControlVoltage)>(
        &mut self,
        left_in: &AudioBuffer,
        right_in: &AudioBuffer,
        tick: &T,
    )
        requires
            old(self).wf(),
            forall|l: ControlVoltage, r: ControlVoltage| call_requires(*tick, (l, r)),
        ensures
            final(self).wf(),
            final(self).computed(*old(self), left_in@, right_in@, *tick),
    {
        let ghost old_bay = self.bay;
        assert(all_present(self.bay.outputs()));
        assert(self.bay.outputs()[1] is Some);
        let mut left = self.bay.take_output(0).unwrap();
        let mut right = self.bay.take_output(1).unwrap();
        let left_block = left_in.get();
        let right_block = right_in.get();
        let n = left.len();
        let mut idx: usize = 0;
        while idx < n
            invariant
                idx <= n,
                n == left.len(),
                n == right.len(),
                match left_block {
                    Some(v) => left_in@ == Some(v@),
                    None => left_in@ is None,
                },
                match right_block {
                    Some(v) => right_in@ == Some(v@),
                    None => right_in@ is None,
                },
                forall|l: ControlVoltage, r: ControlVoltage| call_requires(*tick, (l, r)),
                forall|i: int|
                    0 <= i < idx ==> call_ensures(
                        *tick,
                        (sample_at(left_in@, i), sample_at(right_in@, i)),
                        (#[trigger] left[i], right[i]),
                    ),
            decreases n - idx,
        {
            let (l, r) = tick(read_sample(left_block, idx), read_sample(right_block, idx));
            left.set(idx, l);
            right.set(idx, r);
            idx += 1;
        }
        self.bay.put_output(0, left);
        self.bay.put_output(1, right);
        proof {
            assert(self.bay.outputs() =~= old_bay.outputs().update(0, Some(left@)).update(
                1,
                Some(right@),
            ));
        }
    }
}

impl SynthModule for FreeverbModule {
    closed spec fn bay(&self) -> Patchbay {
        self.bay
    }

    open spec fn wf(&self) -> bool {
        &&& self.bay().wf()
        &&& self.bay().inputs().len() == 2
        &&& self.bay().outputs().len() == 2
        &&& all_present(self.bay().outputs())
    }

    open spec fn name(&self) -> Seq<char> {
        "Freeverb"@
    }

    open spec fn input_label(&self, input_idx: int) -> Option<Seq<char>> {
        if input_idx == 0 {
            Some("Left"@)
        } else if input_idx == 1 {
            Some("Right"@)
        } else {
            None
        }
    }

    open spec fn output_label(&self, output_idx: int) -> Option<Seq<char>> {
        if output_idx == 0 {
            Some("Left"@)
        } else if output_idx == 1 {
            Some("Right"@)
        } else {
            None
        }
    }

    open spec fn dirty(&self) -> bool {
        false
    }

    open spec fn same_settings(&self, other: &Self) -> bool {
        self.settings() == other.settings()
    }

    open spec fn fits(&self, audio_config: AudioConfig) -> bool {
        &&& sized(self.bay().outputs(), audio_config.buffer_size as nat)
        &&& self.settings().sample_rate == audio_config.sample_rate
    }

    proof fn lemma_fits(&self, other: &Self, audio_config: AudioConfig) {
        assert(other.same_settings(self) && other.bay().outputs() == self.bay().outputs()
            ==> other.fits(audio_config) == self.fits(audio_config));
    }

    proof fn lemma_settings(&self, other: &Self) {
        assert(self.same_settings(self));
        assert(other.same_settings(self) ==> other.name() == self.name());
        assert(other.same_settings(self) ==> other.dirty() == self.dirty());
        assert(forall|i: int| other.input_label(i) == self.input_label(i));
        assert(forall|i: int| other.output_label(i) == self.output_label(i));
    }

    proof fn lemma_settings_chain(&self, second: &Self, third: &Self) {
        assert(self.same_settings(second) ==> second.same_settings(self));
        assert(self.same_settings(second) && second.same_settings(third) ==> self.same_settings(
            third,
        ));
    }

    fn deep_clone(&self) -> (copy: Self) {
        Self { bay: self.bay.deep_clone(), set: self.set }
    }

    fn patchbay(&self) -> (bay: &Patchbay) {
        &self.bay
    }

    fn patchbay_mut(&mut self) -> (bay: &mut Patchbay) {
        &mut self.bay
    }

    fn get_name(&self) -> (name: String) {
        Self::get_name()
    }

    fn get_input_label(&self, input_idx: u8) -> (label: Result<Option<String>, ()>) {
        match input_idx {
            0 => Ok(Some("Left".to_owned())),
            1 => Ok(Some("Right".to_owned())),
            _ => Err(()),
        }
    }

    fn get_output_label(&self, output_idx: u8) -> (label: Result<Option<String>, ()>) {
        match output_idx {
            0 => Ok(Some("Left".to_owned())),
            1 => Ok(Some("Right".to_owned())),
            _ => Err(()),
        }
    }

    fn ui_dirty(&self) -> (dirty: bool) {
        false
    }

    fn set_audio_config(&mut self, audio_config: &AudioConfig)
        ensures
            final(self).settings() == (FreeverbSettings {
                sample_rate: audio_config.sample_rate as usize,
                primed: old(self).settings().primed && old(self).settings().sample_rate
                    == audio_config.sample_rate,
                ..old(self).settings()
            }),
    {
        proof {
            lemma_resized_sized(self.bay.outputs(), audio_config.buffer_size as nat);
        }
        if self.set.sample_rate != audio_config.sample_rate as usize {
            self.set.primed = false;
            self.set.sample_rate = audio_config.sample_rate as usize;
        }
        self.bay.resize_outputs(audio_config.buffer_size);
    }
}

} // verus!
