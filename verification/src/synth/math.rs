//! Pointwise arithmetic on two signals.

use vstd::prelude::*;

use crate::synth::buffer::read_sample;
use crate::synth::buffer::sample_at;
use crate::synth::buffer::AudioBuffer;
use crate::synth::ident::fresh_id;
use crate::synth::ident::ModuleId;
use crate::synth::module::all_present;
use crate::synth::module::block_len;
use crate::synth::module::lemma_resized_sized;
use crate::synth::module::same_shape;
use crate::synth::module::sized;
use crate::synth::module::unconnected;
use crate::synth::module::SynthModule;
use crate::synth::patchbay::silent_blocks;
use crate::synth::patchbay::Patchbay;
use crate::synth::AudioConfig;
use crate::synth::ControlVoltage;
use crate::synth::SILENCE;

verus! {

/// What a math module does with its two inputs.
#[derive(Clone, Copy, Debug, PartialEq, Eq, Structural)]
pub enum MathOperation {
    Add,
    Subtract,
    Multiply,
}

/// Adds, subtracts or multiplies two signals sample by sample; a constant
/// takes the place of a second input that is not connected.
#[derive(Debug)]
pub struct MathModule {
    bay: Patchbay,
    constant: ControlVoltage,
    operation: MathOperation,
}

/// The name of an operation, as a control shows it.
pub open spec fn math_name(operation: MathOperation) -> Seq<char> {
    match operation {
        MathOperation::Add => "Add"@,
        MathOperation::Subtract => "Subtract"@,
        MathOperation::Multiply => "Multiply"@,
    }
}

impl MathOperation {
    /// The name of the operation, as a control shows it.
    pub fn get_name(&self) -> (name: String)
        ensures
            name@ == math_name(*self),
    {
        match self {
            MathOperation::Add => "Add".to_owned(),
            MathOperation::Subtract => "Subtract".to_owned(),
            MathOperation::Multiply => "Multiply".to_owned(),
        }
    }
}

impl MathModule {
    /// A module with the given identity and settings, its output silent.
    pub fn restore(
        id: ModuleId,
        constant: ControlVoltage,
        operation: MathOperation,
        audio_config: &AudioConfig,
    ) -> (module: Self)
        ensures
            module.wf(),
            module.fits(*audio_config),
            module.bay().ident() == id,
            module.bay().inputs() == unconnected(2),
            module.bay().outputs() == silent_blocks(1, audio_config.buffer_size as nat),
            module.constant() == constant,
            module.operation() == operation,
    {
        let bay = Patchbay::new(id, 2, 1, audio_config.buffer_size);
        assert(all_present(bay.outputs()));
        Self { bay, constant, operation }
    }

    /// A fresh module for `operation`, its constant 0.
    pub fn new(audio_config: &AudioConfig, operation: MathOperation) -> (module: Self)
        ensures
            module.wf(),
            module.fits(*audio_config),
            module.bay().inputs() == unconnected(2),
            module.bay().outputs() == silent_blocks(1, audio_config.buffer_size as nat),
            module.constant() == SILENCE,
            module.operation() == operation,
    {
        let bay = Patchbay::new(fresh_id(), 2, 1, audio_config.buffer_size);
        assert(all_present(bay.outputs()));
        Self { bay, constant: SILENCE, operation }
    }

    /// The name of this kind of module.
    pub fn get_name() -> (name: String)
        ensures
            name@ == "Math"@,
    {
        "Math".to_owned()
    }

    /// Sets what the module does with its inputs.
    pub fn set_operation(&mut self, operation: MathOperation)
        ensures
            final(self).operation() == operation,
            final(self).constant() == old(self).constant(),
            final(self).bay() == old(self).bay(),
            final(self).wf() == old(self).wf(),
    {
        self.operation = operation;
    }

    /// What the module does with its inputs.
    pub closed spec fn operation(&self) -> MathOperation {
        self.operation
    }

    /// What the module does with its inputs.
    pub fn get_operation(&self) -> (operation: MathOperation)
        ensures
            operation == self.operation(),
    {
        self.operation
    }

    /// The constant that stands in for a second input that is not
    /// connected.
    pub closed spec fn constant(&self) -> ControlVoltage {
        self.constant
    }

    /// The constant that stands in for a second input that is not
    /// connected.
    pub fn get_constant(&self) -> (constant: ControlVoltage)
        ensures
            constant == self.constant(),
    {
        self.constant
    }

    /// Sets the constant.
    pub fn set_constant(&mut self, constant: ControlVoltage)
        ensures
            final(self).constant() == constant,
            final(self).operation() == old(self).operation(),
            final(self).bay() == old(self).bay(),
            final(self).wf() == old(self).wf(),
    {
        self.constant = constant;
    }
}

impl MathModule {
    /// The module has computed one block since it was `before`, from the
    /// blocks its inputs read: each sample of the output is the operation
    /// applied to the sample of the first input and that of the second, or
    /// the constant where the second input is not connected.
    pub open spec fn computed<F: Fn(MathOperation, ControlVoltage, ControlVoltage) -> ControlVoltage>(
        &self,
        before: Self,
        in1: Option<Seq<ControlVoltage>>,
        in2: Option<Seq<ControlVoltage>>,
        apply: F,
    ) -> bool {
        &&& self.bay().ident() == before.bay().ident()
        &&& self.bay().inputs() == before.bay().inputs()
        &&& self.constant() == before.constant()
        &&& self.operation() == before.operation()
        &&& same_shape(self.bay(), before.bay())
        &&& forall|i: int|
            0 <= i < block_len(self.bay().outputs()[0]) ==> call_ensures(
                apply,
                (
                    before.operation(),
                    sample_at(in1, i),
                    if in2 is Some {
                        sample_at(in2, i)
                    } else {
                        before.constant()
                    },
                ),
                #[trigger] self.bay().outputs()[0]->0[i],
            )
    }

    /// Computes one block. `apply` performs an operation on two samples.
    pub fn calc<F: Fn(MathOperation, ControlVoltage, ControlVoltage) -> ControlVoltage>(
        &mut self,
        in1: &AudioBuffer,
        in2: &AudioBuffer,
        apply: &F,
    )
        requires
            old(self).wf(),
            forall|op: MathOperation, a: ControlVoltage, b: ControlVoltage|
                call_requires(*apply, (op, a, b)),
        ensures
            final(self).wf(),
            final(self).computed(*old(self), in1@, in2@, *apply),
    {
        assert(all_present(self.bay.outputs()));
        let mut output = self.bay.take_output(0).unwrap();
        let first = in1.get();
        let second = in2.get();
        let mut idx: usize = 0;
        let ghost len = output.len();
        while idx < output.len()
            invariant
                idx <= output.len(),
                output.len() == len,
                match first {
                    Some(v) => in1@ == Some(v@),
                    None => in1@ is None,
                },
                match second {
                    Some(v) => in2@ == Some(v@),
                    None => in2@ is None,
                },
                forall|op: MathOperation, a: ControlVoltage, b: ControlVoltage|
                    call_requires(*apply, (op, a, b)),
                forall|i: int|
                    0 <= i < idx ==> call_ensures(
                        *apply,
                        (
                            self.operation,
                            sample_at(in1@, i),
                            if in2@ is Some {
                                sample_at(in2@, i)
                            } else {
                                self.constant
                            },
                        ),
                        #[trigger] output[i],
                    ),
            decreases output.len() - idx,
        {
            let a = read_sample(first, idx);
            let b = if second.is_some() {
                read_sample(second, idx)
            } else {
                self.constant
            };
            output.set(idx, apply(self.operation, a, b));
            idx += 1;
        }
        self.bay.put_output(0, output);
        assert(self.bay.outputs()[0] == Some(output@));
    }
}

impl SynthModule for MathModule {
    closed spec fn bay(&self) -> Patchbay {
        self.bay
    }

    open spec fn wf(&self) -> bool {
        &&& self.bay().wf()
        &&& self.bay().inputs().len() == 2
        &&& self.bay().outputs().len() == 1
        &&& all_present(self.bay().outputs())
    }

    open spec fn name(&self) -> Seq<char> {
        "Math"@
    }

    open spec fn input_label(&self, input_idx: int) -> Option<Seq<char>> {
        if input_idx == 0 {
            Some("In1"@)
        } else if input_idx == 1 {
            Some("In2"@)
        } else {
            None
        }
    }

    open spec fn output_label(&self, output_idx: int) -> Option<Seq<char>> {
        None
    }

    open spec fn dirty(&self) -> bool {
        false
    }

    open spec fn same_settings(&self, other: &Self) -> bool {
        &&& self.constant() == other.constant()
        &&& self.operation() == other.operation()
    }

    open spec fn fits(&self, audio_config: AudioConfig) -> bool {
        &&& sized(self.bay().outputs(), audio_config.buffer_size as nat)
    }

    proof fn lemma_fits(&self, other: &Self, audio_config: AudioConfig) {
        assert(other.same_settings(self) && other.bay().outputs() == self.bay().outputs()
            ==> other.fits(audio_config) == self.fits(audio_config));
    }

    proof fn lemma_settings(&self, other: &Self) {
        assert(self.same_settings(self));
        assert(other.same_settings(self) ==> other.name() == self.name());
        assert(other.same_settings(self) ==> other.dirty() == self.dirty());
        assert(forall|i: int| other.input_label(i) == self.input_label(i));
        assert(forall|i: int| other.output_label(i) == self.output_label(i));
    }

    proof fn lemma_settings_chain(&self, second: &Self, third: &Self) {
        assert(self.same_settings(second) ==> second.same_settings(self));
        assert(self.same_settings(second) && second.same_settings(third) ==> self.same_settings(
            third,
        ));
    }

    fn deep_clone(&self) -> (copy: Self) {
        Self { bay: self.bay.deep_clone(), constant: self.constant, operation: self.operation }
    }

    fn patchbay(&self) -> (bay: &Patchbay) {
        &self.bay
    }

    fn patchbay_mut(&mut self) -> (bay: &mut Patchbay) {
        &mut self.bay
    }

    fn get_name(&self) -> (name: String) {
        Self::get_name()
    }

    fn get_input_label(&self, input_idx: u8) -> (label: Result<Option<String>, ()>) {
        match input_idx {
            0 => Ok(Some("In1".to_owned())),
            1 => Ok(Some("In2".to_owned())),
            _ => Err(()),
        }
    }

    fn get_output_label(&self, output_idx: u8) -> (label: Result<Option<String>, ()>) {
        match output_idx {
            0 => Ok(None),
            _ => Err(()),
        }
    }

    fn ui_dirty(&self) -> (dirty: bool) {
        false
    }

    fn set_audio_config(&mut self, audio_config: &AudioConfig)
        ensures
            final(self).constant() == old(self).constant(),
            final(self).operation() == old(self).operation(),
    {
        proof {
            lemma_resized_sized(self.bay.outputs(), audio_config.buffer_size as nat);
        }
        self.bay.resize_outputs(audio_config.buffer_size);
    }
}

} // verus!
