use s_rack::engine::AudioEngine;
use s_rack::synth::adsr::{ADSRMode, ADSRModule};
use s_rack::synth::filter::{InternalMoogFilterState, MoogFilterSettings};
use s_rack::synth::freeverb::{FreeverbModule, FreeverbUpdate};
use s_rack::synth::math::{MathModule, MathOperation};
use s_rack::synth::oscillator::{NoiseModule, OscillatorModule, OscillatorState};
use s_rack::synth::output::OutputModule;
use s_rack::synth::sample::SampleModule;
use s_rack::synth::vca::VCAModule;
use s_rack::synth::{
    execute, AudioBuffer, AudioConfig, Kernels, ModuleId, SynthModule, SynthModuleType, WaveState,
};
use s_rack::ui::SynthModuleWorkspaceImpl;
use std::cell::{Cell, RefCell};

type Voice = fn(OscillatorState, Option<u32>) -> (u32, u32, u32, u64);
type Pitch = fn(u16, u16) -> u32;
type Advance = fn(u32, u32, u32) -> u32;
type Shape = fn(ADSRMode, u32, u32, u32) -> u32;
type Multiply = fn(u32, u32) -> u32;
type Ladder = fn(MoogFilterSettings, u32, u32) -> (InternalMoogFilterState, u32, u32, u32);
type Mix = fn(u32, u32, u32) -> u32;
type Apply = fn(MathOperation, u32, u32) -> u32;
type Place = fn(u32) -> usize;
type MoveOn = fn(u32, u32, u32, u32) -> u32;

fn voice(state: OscillatorState, cv: Option<u32>) -> (u32, u32, u32, u64) {
    (cv.unwrap_or(9), 2, 3, state.pos + 1)
}

fn pitch(row: u16, steps: u16) -> u32 {
    row as u32 * 100 + steps as u32
}

fn advance(phase: u32, _sample_rate: u32, _secs: u32) -> u32 {
    phase
}

fn shape(_mode: ADSRMode, _from: u32, _sustain: u32, phase: u32) -> u32 {
    phase
}

fn multiply(a: u32, c: u32) -> u32 {
    a.wrapping_mul(c)
}

fn ladder(set: MoogFilterSettings, audio: u32, _cv: u32) -> (InternalMoogFilterState, u32, u32, u32) {
    (set.state, audio, audio, audio)
}

fn mix(acc: u32, src: u32, gain: u32) -> u32 {
    acc.wrapping_add(src.wrapping_mul(gain))
}

fn apply(op: MathOperation, a: u32, c: u32) -> u32 {
    match op {
        MathOperation::Add => a.wrapping_add(c),
        MathOperation::Subtract => a.wrapping_sub(c),
        MathOperation::Multiply => a.wrapping_mul(c),
    }
}

fn place(pos: u32) -> usize {
    pos as usize
}

fn move_on(pos: u32, _from: u32, _to: u32, _cv: u32) -> u32 {
    pos + 1
}

/// Arithmetic on whole numbers, which makes every expected sample exact.
fn kernels<D, W, T, B>(
    draw: D,
    wave: W,
    reverb: B,
) -> Kernels<Voice, D, Pitch, Advance, Shape, Multiply, Ladder, Mix, Apply, W, Place, MoveOn, B>
where
    D: Fn() -> u32,
    W: Fn(ModuleId) -> WaveState,
    T: Fn(u32, u32) -> (u32, u32),
    B: Fn(ModuleId, FreeverbUpdate) -> T,
{
    Kernels {
        voice,
        draw,
        pitch,
        advance,
        shape,
        multiply,
        ladder,
        mix,
        apply,
        wave,
        place,
        move_on,
        reverb,
    }
}

fn through(_id: ModuleId, _update: FreeverbUpdate) -> fn(u32, u32) -> (u32, u32) {
    |left, right| (left, right)
}

fn unchanged(_id: ModuleId) -> WaveState {
    WaveState::Unchanged
}

fn block(samples: &[u32]) -> AudioBuffer {
    let mut buffer = AudioBuffer::new(None);
    buffer.put(Some(samples.to_vec()));
    buffer
}

fn out(module: &SynthModuleType, port: u8) -> Vec<u32> {
    module.get_output(port).unwrap().get().unwrap().clone()
}

fn config(buffer_size: usize) -> AudioConfig {
    AudioConfig { sample_rate: 48000, buffer_size, channels: 2 }
}

/// Two adders that read each other: the first adds one, the second ten.
fn ring() -> Vec<SynthModuleType> {
    let ac = config(1);
    let mut first = MathModule::new(&ac, MathOperation::Add);
    let mut second = MathModule::new(&ac, MathOperation::Add);
    first.set_constant(1);
    second.set_constant(10);
    first.set_input(0, second.id(), 0).unwrap();
    second.set_input(0, first.id(), 0).unwrap();
    vec![SynthModuleType::MathModule(first), SynthModuleType::MathModule(second)]
}

#[test]
fn a_later_module_reads_this_block_and_an_earlier_one_the_block_before() {
    let kernels = kernels(|| 0, unchanged, through);
    let mut modules = ring();
    execute(&mut modules, &vec![0, 1], &kernels);
    assert_eq!(out(&modules[0], 0), vec![1]);
    assert_eq!(out(&modules[1], 0), vec![11]);
    execute(&mut modules, &vec![0, 1], &kernels);
    assert_eq!(out(&modules[0], 0), vec![12]);
    assert_eq!(out(&modules[1], 0), vec![22]);
    // the other way round the second module comes first
    let mut modules = ring();
    execute(&mut modules, &vec![1, 0], &kernels);
    assert_eq!(out(&modules[1], 0), vec![10]);
    assert_eq!(out(&modules[0], 0), vec![11]);
}

#[test]
fn a_plan_is_run_entry_by_entry() {
    let kernels = kernels(|| 0, unchanged, through);
    // a place that holds no module is passed over
    let mut modules = ring();
    execute(&mut modules, &vec![0, 7, 1], &kernels);
    assert_eq!(out(&modules[0], 0), vec![1]);
    assert_eq!(out(&modules[1], 0), vec![11]);
    // a module that the plan names twice runs twice
    let mut modules = ring();
    execute(&mut modules, &vec![1, 1, 0, 1], &kernels);
    assert_eq!(out(&modules[0], 0), vec![11]);
    assert_eq!(out(&modules[1], 0), vec![21]);
    // an empty plan runs nothing
    let mut modules = ring();
    execute(&mut modules, &vec![], &kernels);
    assert_eq!(out(&modules[0], 0), vec![0]);
    assert_eq!(out(&modules[1], 0), vec![0]);
    // the modules keep their places, identities and connections
    let ids: Vec<ModuleId> = modules.iter().map(|m| m.id()).collect();
    execute(&mut modules, &vec![0, 1], &kernels);
    assert_eq!(modules.iter().map(|m| m.id()).collect::<Vec<_>>(), ids);
    assert_eq!(modules[0].get_input(0), Ok(Some((ids[1], 0))));
    assert_eq!(modules[1].get_input(0), Ok(Some((ids[0], 0))));
}

#[test]
fn each_kind_is_handed_its_inputs_in_order() {
    let kernels = kernels(|| 5, unchanged, through);
    let ac = config(2);
    let inputs = vec![block(&[3, 4]), block(&[0x3F80_0000, 0])];
    let mut vca = SynthModuleType::VCAModule(VCAModule::new(&ac));
    vca.calc(&inputs, &kernels);
    assert_eq!(out(&vca, 0), vec![3_u32.wrapping_mul(0x3F80_0000), 0]);
    let mut osc = SynthModuleType::OscillatorModule(OscillatorModule::new(&ac));
    osc.calc(&inputs, &kernels);
    assert_eq!(out(&osc, 0), vec![3, 4]);
    assert_eq!(out(&osc, 1), vec![2, 2]);
    assert_eq!(out(&osc, 2), vec![3, 3]);
    let mut sub = SynthModuleType::MathModule(MathModule::new(&ac, MathOperation::Subtract));
    sub.calc(&vec![block(&[9, 8]), block(&[1, 2])], &kernels);
    assert_eq!(out(&sub, 0), vec![8, 6]);
    let mut noise = SynthModuleType::NoiseModule(NoiseModule::new(&ac));
    noise.calc(&vec![], &kernels);
    assert_eq!(out(&noise, 0), vec![5, 5]);
    let mut output = SynthModuleType::OutputModule(OutputModule::new(&ac));
    output.calc(&vec![block(&[1, 2]), block(&[3, 4])], &kernels);
    match &output {
        SynthModuleType::OutputModule(m) => {
            assert_eq!(m.get_buf(0).unwrap().get(), Some(&vec![1, 2]));
            assert_eq!(m.get_buf(1).unwrap().get(), Some(&vec![3, 4]));
        }
        _ => panic!("the kind has changed"),
    }
}

#[test]
fn a_short_row_of_inputs_reads_nothing() {
    let kernels = kernels(|| 0, unchanged, through);
    let ac = config(2);
    // without its control input an amplifier is silent
    let mut vca = SynthModuleType::VCAModule(VCAModule::new(&ac));
    vca.calc(&vec![block(&[3, 4]), block(&[0x3F80_0000, 0x3F80_0000])], &kernels);
    assert_ne!(out(&vca, 0), vec![0, 0]);
    vca.calc(&vec![block(&[3, 4])], &kernels);
    assert_eq!(out(&vca, 0), vec![0, 0]);
    // without its second input an adder adds its constant
    let mut adder = MathModule::new(&ac, MathOperation::Add);
    adder.set_constant(100);
    let mut adder = SynthModuleType::MathModule(adder);
    adder.calc(&vec![block(&[1, 2])], &kernels);
    assert_eq!(out(&adder, 0), vec![101, 102]);
    adder.calc(&vec![], &kernels);
    assert_eq!(out(&adder, 0), vec![100, 100]);
    // an oscillator without a pitch block
    let mut osc = SynthModuleType::OscillatorModule(OscillatorModule::new(&ac));
    osc.calc(&vec![], &kernels);
    assert_eq!(out(&osc, 0), vec![9, 9]);
}

#[test]
fn a_player_learns_of_its_recording_before_each_block() {
    let ac = config(3);
    let player = SampleModule::new(&ac);
    let id = player.id();
    let mut module = SynthModuleType::SampleModule(player);
    let asked = Cell::new(0_u128);
    let state = Cell::new(0);
    let wave = |id: ModuleId| {
        asked.set(id);
        match state.get() {
            0 => WaveState::Busy,
            1 => WaveState::Loaded(vec![5, 6, 7, 8], 44100),
            _ => WaveState::Unchanged,
        }
    };
    let kernels = kernels(|| 0, wave, through);
    let gate = 0x3F80_0000;
    // while the recording is loaded the player is silent, and watches its gate
    module.calc(&vec![block(&[0, 0, gate])], &kernels);
    assert_eq!(asked.get(), id);
    assert_eq!(out(&module, 0), vec![0, 0, 0]);
    match &module {
        SynthModuleType::SampleModule(m) => {
            assert!(m.player_ref().transition_detector.last);
            assert!(m.wavebox_ref().samples.is_empty());
        }
        _ => panic!("the kind has changed"),
    }
    // the new recording is taken, and played from the next rising gate on
    state.set(1);
    module.calc(&vec![block(&[0, gate, gate])], &kernels);
    assert_eq!(out(&module, 0), vec![5, 5, 6]);
    match &module {
        SynthModuleType::SampleModule(m) => {
            assert_eq!(m.wavebox_ref().samples, vec![5, 6, 7, 8]);
            assert_eq!(m.wavebox_ref().sample_rate, 44100);
            assert!(!m.wavebox_ref().fresh);
            assert!(m.player_ref().playing);
        }
        _ => panic!("the kind has changed"),
    }
    // and played on while nothing changes
    state.set(2);
    module.calc(&vec![block(&[gate, gate, gate])], &kernels);
    assert_eq!(out(&module, 0), vec![7, 8, 5]);
}

#[test]
fn a_reverberator_gets_its_processor_for_each_block() {
    let ac = config(2);
    let reverb = FreeverbModule::new(&ac);
    let id = reverb.id();
    let mut module = SynthModuleType::FreeverbModule(reverb);
    let told: RefCell<Vec<(ModuleId, FreeverbUpdate)>> = RefCell::new(vec![]);
    let reverb = |id: ModuleId, update: FreeverbUpdate| {
        told.borrow_mut().push((id, update));
        |left: u32, right: u32| (left + right, left.wrapping_sub(right))
    };
    let kernels = kernels(|| 0, unchanged, reverb);
    module.calc(&vec![block(&[10, 20]), block(&[1, 2])], &kernels);
    assert_eq!(out(&module, 0), vec![11, 22]);
    assert_eq!(out(&module, 1), vec![9, 18]);
    module.calc(&vec![block(&[10, 20])], &kernels);
    assert_eq!(out(&module, 0), vec![10, 20]);
    let told = told.borrow();
    assert_eq!(told.len(), 2);
    assert_eq!(told[0].0, id);
    assert!(told[0].1.rebuild);
    assert_eq!(told[0].1.wet, Some(1.0_f64.to_bits()));
    assert_eq!(
        told[1],
        (
            id,
            FreeverbUpdate {
                rebuild: false,
                sample_rate: 48000,
                dampening: None,
                freeze: None,
                wet: None,
                width: None,
                room_size: None,
                dry: None,
            }
        )
    );
}

/// A source of noise into the left channel of an output, and an adder with
/// the constant seven into the right.
fn stereo(buffer_size: usize) -> SynthModuleWorkspaceImpl {
    let ac = config(buffer_size);
    let mut workspace = SynthModuleWorkspaceImpl::new();
    workspace.set_audio_config(ac);
    let noise = NoiseModule::new(&ac);
    let mut adder = MathModule::new(&ac, MathOperation::Add);
    adder.set_constant(7);
    let output = OutputModule::new(&ac);
    let ids = (noise.id(), adder.id(), output.id());
    workspace.add_module(SynthModuleType::NoiseModule(noise)).unwrap();
    workspace.add_module(SynthModuleType::MathModule(adder)).unwrap();
    workspace.add_module(SynthModuleType::OutputModule(output)).unwrap();
    workspace.connect(ids.2, 0, ids.0, 0).unwrap();
    workspace.connect(ids.2, 1, ids.1, 0).unwrap();
    workspace
}

#[test]
fn the_device_buffer_is_filled_block_by_block() {
    let count = Cell::new(0_u32);
    let draw = || {
        count.set(count.get() + 1);
        count.get()
    };
    let kernels = kernels(draw, unchanged, through);
    let mut workspace = stereo(3);
    let mut engine = AudioEngine::new(&config(3));
    // five frames: one block and two frames of the next
    let mut data = vec![0_u32; 10];
    let repaint = engine.render(&mut data, &mut workspace, &kernels);
    assert!(!repaint);
    assert_eq!(data, vec![1, 7, 2, 7, 3, 7, 4, 7, 5, 7]);
    assert_eq!(count.get(), 6);
    // four frames: the last of that block, and a whole block
    let mut data = vec![0_u32; 8];
    engine.render(&mut data, &mut workspace, &kernels);
    assert_eq!(data, vec![6, 7, 7, 7, 8, 7, 9, 7]);
    assert_eq!(count.get(), 9);
    // nothing to fill, nothing computed
    let mut data = vec![];
    engine.render(&mut data, &mut workspace, &kernels);
    assert_eq!(count.get(), 9);
    // the next sample asks for the next block
    assert_eq!(engine.play(0, &mut workspace, &kernels), 10);
    assert_eq!(engine.play(1, &mut workspace, &kernels), 7);
    assert_eq!(engine.play(2, &mut workspace, &kernels), 11);
    assert_eq!(count.get(), 12);
}

#[test]
fn without_an_output_module_the_device_gets_silence() {
    let count = Cell::new(0_u32);
    let draw = || {
        count.set(count.get() + 1);
        count.get()
    };
    let kernels = kernels(draw, unchanged, through);
    let ac = config(2);
    let mut workspace = SynthModuleWorkspaceImpl::new();
    workspace.set_audio_config(ac);
    workspace.add_module(SynthModuleType::NoiseModule(NoiseModule::new(&ac))).unwrap();
    assert!(workspace.get_plan().is_empty());
    let mut engine = AudioEngine::new(&ac);
    let mut data = vec![1_u32; 6];
    engine.render(&mut data, &mut workspace, &kernels);
    assert_eq!(data, vec![0; 6]);
    assert_eq!(count.get(), 0);
}

#[test]
fn a_workspace_runs_its_plan() {
    let count = Cell::new(0_u32);
    let draw = || {
        count.set(count.get() + 1);
        count.get()
    };
    let kernels = kernels(draw, unchanged, through);
    let mut workspace = stereo(2);
    let plan = workspace.get_plan().clone();
    workspace.execute(&kernels);
    match &workspace.get_modules()[workspace.get_output().unwrap()] {
        SynthModuleType::OutputModule(m) => {
            assert_eq!(m.get_buf(0).unwrap().get(), Some(&vec![1, 2]));
            assert_eq!(m.get_buf(1).unwrap().get(), Some(&vec![7, 7]));
        }
        _ => panic!("not an output"),
    }
    assert_eq!(*workspace.get_plan(), plan);
    assert_eq!(workspace.get_output(), Some(2));
}

#[test]
fn a_module_that_has_changed_asks_for_a_repaint() {
    let kernels = kernels(|| 0, unchanged, through);
    let ac = config(2);
    let mut workspace = SynthModuleWorkspaceImpl::new();
    workspace.set_audio_config(ac);
    let gate = MathModule::new(&ac, MathOperation::Add);
    let envelope = ADSRModule::new(&ac);
    let output = OutputModule::new(&ac);
    let ids = (gate.id(), envelope.id(), output.id());
    workspace.add_module(SynthModuleType::MathModule(gate)).unwrap();
    workspace.add_module(SynthModuleType::ADSRModule(envelope)).unwrap();
    workspace.add_module(SynthModuleType::OutputModule(output)).unwrap();
    workspace.connect(ids.1, 0, ids.0, 0).unwrap();
    workspace.connect(ids.2, 0, ids.1, 0).unwrap();
    let mut engine = AudioEngine::new(&ac);
    let mut data = vec![0_u32; 4];
    // a closed gate leaves the envelope at rest
    assert!(!engine.render(&mut data, &mut workspace, &kernels));
    // an open gate starts the attack, which a display should show
    match workspace.module_mut(0) {
        SynthModuleType::MathModule(m) => m.set_constant(0x3F80_0000),
        _ => panic!("not the adder"),
    }
    assert!(engine.render(&mut data, &mut workspace, &kernels));
    match &workspace.get_modules()[1] {
        SynthModuleType::ADSRModule(m) => assert_eq!(m.envelope_ref().mode, ADSRMode::Attack),
        _ => panic!("not the envelope"),
    }
}
