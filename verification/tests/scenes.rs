use s_rack::engine::AudioEngine;
use s_rack::synth::adsr::{ADSRMode, ADSRModule};
use s_rack::synth::math::{MathModule, MathOperation};
use s_rack::synth::mixer::MonoMixerModule;
use s_rack::synth::oscillator::{OscillatorModule, OscillatorState};
use s_rack::synth::output::OutputModule;
use s_rack::synth::sequencer::GridSequencerModule;
use s_rack::synth::vca::VCAModule;
use s_rack::synth::filter::{InternalMoogFilterState, MoogFilterSettings};
use s_rack::synth::freeverb::FreeverbUpdate;
use s_rack::synth::{
    AudioBuffer, AudioConfig, Kernels, ModuleId, SynthModule, SynthModuleType, WaveState,
};
use s_rack::ui::SynthModuleWorkspaceImpl;
use std::f64::consts::PI;

fn f(bits: u32) -> f32 {
    f32::from_bits(bits)
}

fn b(value: f32) -> u32 {
    value.to_bits()
}

fn poly_blep(t: f64, dt: f64) -> f64 {
    if dt == 0.0 {
        return 0.0;
    }
    let mut t = t;
    if t < dt {
        t /= dt;
        return t + t - t * t - 1.0;
    } else if t > 1.0 - dt {
        t = (t - 1.0) / dt;
        return t * t + t + t + 1.0;
    }
    0.0
}

fn voice(state: OscillatorState, cv: Option<u32>) -> (u32, u32, u32, u64) {
    let pos = f64::from_bits(state.pos);
    let val = f64::from(f(state.val));
    let freq = match cv {
        Some(cv) => 440.0 * 2.0_f64.powf(f64::from(f(cv)) + val),
        None => 440.0 * 2.0_f64.powf(val),
    };
    let delta = freq / (state.sample_rate as f64);
    let sine = (pos * PI * 2.0).sin() as f32;
    let square = if pos < 0.5 { -1.0 } else { 1.0 }
        - if state.antialiasing {
            (poly_blep(pos, delta) - poly_blep((pos + 0.5) % 1.0, delta)) as f32
        } else {
            0.0
        };
    let saw = (pos as f32 * 2.0 - 1.0)
        - if state.antialiasing {
            poly_blep(pos, delta) as f32
        } else {
            0.0
        };
    let next = (pos + delta) % 1.0;
    (b(sine), b(square), b(saw), next.to_bits())
}

fn advance(phase: u32, sample_rate: u32, secs: u32) -> u32 {
    b(f(phase) + 1.0 / (sample_rate as f32 * f(secs)))
}

fn shape(mode: ADSRMode, r_val: u32, s_val: u32, phase: u32) -> u32 {
    let (r, s, p) = (f(r_val), f(s_val), f(phase));
    b(match mode {
        ADSRMode::Attack => r + (1.0 - r) * p,
        ADSRMode::Decay => s + (1.0 - s) * (1.0 - p),
        ADSRMode::Release => s * (1.0 - p),
        ADSRMode::Sustain => s,
        ADSRMode::Idle => 0.0,
    })
}

fn multiply(a: u32, c: u32) -> u32 {
    b(f(a) * f(c))
}

fn mix(acc: u32, src: u32, gain: u32) -> u32 {
    b(f(acc) + f(src) * f(gain))
}

fn apply(op: MathOperation, a: u32, c: u32) -> u32 {
    b(match op {
        MathOperation::Add => f(a) + f(c),
        MathOperation::Subtract => f(a) - f(c),
        MathOperation::Multiply => f(a) * f(c),
    })
}

fn pitch(row: u16, steps_per_octave: u16) -> u32 {
    b(row as f32 * (1.0 / steps_per_octave as f32))
}

fn draw() -> u32 {
    0
}

fn ladder(set: MoogFilterSettings, _audio: u32, _cv: u32) -> (InternalMoogFilterState, u32, u32, u32) {
    (set.state, 0, 0, 0)
}

fn wave(_id: ModuleId) -> WaveState {
    WaveState::Unchanged
}

fn place(_pos: u32) -> usize {
    0
}

fn move_on(pos: u32, _from: u32, _to: u32, _cv: u32) -> u32 {
    pos
}

fn reverb(_id: ModuleId, _update: FreeverbUpdate) -> fn(u32, u32) -> (u32, u32) {
    |left, right| (left, right)
}

type SceneKernels = Kernels<
    fn(OscillatorState, Option<u32>) -> (u32, u32, u32, u64),
    fn() -> u32,
    fn(u16, u16) -> u32,
    fn(u32, u32, u32) -> u32,
    fn(ADSRMode, u32, u32, u32) -> u32,
    fn(u32, u32) -> u32,
    fn(MoogFilterSettings, u32, u32) -> (InternalMoogFilterState, u32, u32, u32),
    fn(u32, u32, u32) -> u32,
    fn(MathOperation, u32, u32) -> u32,
    fn(ModuleId) -> WaveState,
    fn(u32) -> usize,
    fn(u32, u32, u32, u32) -> u32,
    fn(ModuleId, FreeverbUpdate) -> fn(u32, u32) -> (u32, u32),
>;

fn kernels() -> SceneKernels {
    Kernels {
        voice,
        draw,
        pitch,
        advance,
        shape,
        multiply,
        ladder,
        mix,
        apply,
        wave,
        place,
        move_on,
        reverb,
    }
}

/// Runs every module of the plan once, in the order of the plan.
fn execute(workspace: &mut SynthModuleWorkspaceImpl) {
    workspace.execute(&kernels());
}

/// Has the engine fill a device buffer of `len` samples from the workspace.
fn render(
    engine: &mut AudioEngine,
    workspace: &mut SynthModuleWorkspaceImpl,
    len: usize,
) -> Vec<f32> {
    let mut data = vec![b(1.0); len];
    engine.render(&mut data, workspace, &kernels());
    data.iter().map(|bits| f(*bits)).collect()
}

fn block(module: &SynthModuleType, port: u8) -> Vec<f32> {
    module
        .get_output(port)
        .unwrap()
        .get()
        .unwrap()
        .iter()
        .map(|bits| f(*bits))
        .collect()
}

fn channel(module: &SynthModuleType, c: u8) -> Vec<f32> {
    match module {
        SynthModuleType::OutputModule(m) => {
            m.get_buf(c).unwrap().get().unwrap().iter().map(|bits| f(*bits)).collect()
        }
        _ => panic!("not an output"),
    }
}

struct Chain {
    workspace: SynthModuleWorkspaceImpl,
    osc: ModuleId,
    adsr: ModuleId,
    vca: ModuleId,
    output: ModuleId,
}

fn config() -> AudioConfig {
    AudioConfig { sample_rate: 48000, buffer_size: 1024, channels: 2 }
}

/// An oscillator into the audio input of an amplifier, an envelope into its
/// control input, the amplifier into both inputs of the output.
fn chain() -> Chain {
    let ac = config();
    let mut workspace = SynthModuleWorkspaceImpl::new();
    workspace.set_audio_config(ac);
    let osc = OscillatorModule::new(&ac);
    let mut adsr = ADSRModule::new(&ac);
    {
        let env = adsr.envelope_mut();
        env.a_sec = b(0.01);
        env.d_sec = b(0.1);
        env.s_val = b(0.5);
        env.r_sec = b(0.1);
    }
    let vca = VCAModule::new(&ac);
    let output = OutputModule::new(&ac);
    let ids = (osc.id(), adsr.id(), vca.id(), output.id());
    workspace.add_module(SynthModuleType::OutputModule(output)).unwrap();
    workspace.add_module(SynthModuleType::VCAModule(vca)).unwrap();
    workspace.add_module(SynthModuleType::OscillatorModule(osc)).unwrap();
    workspace.add_module(SynthModuleType::ADSRModule(adsr)).unwrap();
    workspace.connect(ids.2, 0, ids.0, 0).unwrap();
    workspace.connect(ids.2, 1, ids.1, 0).unwrap();
    workspace.connect(ids.3, 0, ids.2, 0).unwrap();
    workspace.connect(ids.3, 1, ids.2, 0).unwrap();
    Chain { workspace, osc: ids.0, adsr: ids.1, vca: ids.2, output: ids.3 }
}

fn planned_ids(workspace: &SynthModuleWorkspaceImpl) -> Vec<ModuleId> {
    workspace.get_plan().iter().map(|at| workspace.get_modules()[*at].id()).collect()
}

fn find(workspace: &SynthModuleWorkspaceImpl, id: ModuleId) -> usize {
    workspace.get_modules().iter().position(|m| m.id() == id).unwrap()
}

#[test]
fn three_module_chain_is_planned_in_order() {
    let chain = chain();
    let plan = planned_ids(&chain.workspace);
    assert_eq!(plan.len(), 4);
    assert!(
        plan == vec![chain.osc, chain.adsr, chain.vca, chain.output]
            || plan == vec![chain.adsr, chain.osc, chain.vca, chain.output]
    );
    // of the two orders, the one that follows the order of the modules
    assert_eq!(plan, vec![chain.osc, chain.adsr, chain.vca, chain.output]);
    assert_eq!(chain.workspace.get_output(), Some(0));
}

#[test]
fn three_module_chain_plays_the_product() {
    let mut chain = chain();
    // an open gate for the envelope: an adder whose constant is one
    let ac = config();
    let mut gate = MathModule::new(&ac, MathOperation::Add);
    gate.set_constant(b(1.0));
    let gate_id = gate.id();
    chain.workspace.add_module(SynthModuleType::MathModule(gate)).unwrap();
    chain.workspace.connect(chain.adsr, 0, gate_id, 0).unwrap();
    // an envelope at rest gets going with an open gate, rising or not
    execute(&mut chain.workspace);
    let modules = chain.workspace.get_modules();
    let osc = block(&modules[find(&chain.workspace, chain.osc)], 0);
    let env = block(&modules[find(&chain.workspace, chain.adsr)], 0);
    let out = channel(&modules[find(&chain.workspace, chain.output)], 0);
    let right = channel(&modules[find(&chain.workspace, chain.output)], 1);
    assert_eq!(out.len(), 1024);
    assert!(env.iter().any(|level| *level > 0.0));
    for i in 0..1024 {
        let expected = if env[i] > 0.0 { osc[i] * env[i] } else { 0.0 };
        assert_eq!(out[i], expected);
        assert_eq!(right[i], expected);
    }
    // the attack takes 480 samples to reach one
    assert!((env[240] - 0.5).abs() < 0.01);
    // 440 Hz at 48 kHz: a quarter of a cycle after 27.27 samples
    assert!(osc[27] > 0.99);
}

#[test]
fn envelope_at_rest_gives_a_silent_chain() {
    let mut chain = chain();
    execute(&mut chain.workspace);
    let modules = chain.workspace.get_modules();
    let out = channel(&modules[find(&chain.workspace, chain.output)], 0);
    assert_eq!(out, vec![0.0; 1024]);
}

#[test]
fn feedback_is_planned_once_and_reads_the_block_before() {
    let ac = AudioConfig { sample_rate: 48000, buffer_size: 4, channels: 1 };
    let mut workspace = SynthModuleWorkspaceImpl::new();
    workspace.set_audio_config(ac);
    let mut mixer = MonoMixerModule::new(&ac);
    mixer.set_gain(0, b(0.5)).unwrap();
    let mut source = MathModule::new(&ac, MathOperation::Add);
    source.set_constant(b(0.5));
    let output = OutputModule::new(&ac);
    let (mixer_id, source_id, output_id) = (mixer.id(), source.id(), output.id());
    workspace.add_module(SynthModuleType::OutputModule(output)).unwrap();
    workspace.add_module(SynthModuleType::MonoMixerModule(mixer)).unwrap();
    workspace.add_module(SynthModuleType::MathModule(source)).unwrap();
    workspace.connect(mixer_id, 0, mixer_id, 0).unwrap();
    workspace.connect(mixer_id, 1, source_id, 0).unwrap();
    workspace.connect(output_id, 0, mixer_id, 0).unwrap();
    let plan = planned_ids(&workspace);
    assert_eq!(plan.iter().filter(|id| **id == mixer_id).count(), 1);
    assert_eq!(plan, vec![source_id, mixer_id, output_id]);
    let mut before = 0.0_f32;
    for _ in 0..10 {
        execute(&mut workspace);
        let out = block(&workspace.get_modules()[find(&workspace, mixer_id)], 0);
        // what the mixer wrote one block before, scaled by the gain, and
        // the source on top
        let expected = before * 0.5 + 0.5;
        assert_eq!(out, vec![expected; 4]);
        before = expected;
    }
    assert!((before - 1.0).abs() < 0.001);
}

#[test]
fn sequencer_drives_the_oscillator() {
    let ac = AudioConfig { sample_rate: 48000, buffer_size: 16, channels: 2 };
    let mut module = GridSequencerModule::new(&ac);
    module.set_steps(4).unwrap();
    for (col, row) in [(0_usize, 0_u16), (1, 12), (3, 7)] {
        module.toggle_cell(col, row).unwrap();
        module.toggle_cell(col, row).unwrap();
    }
    assert_eq!(module.get_sequence(), &vec![Some((0, false)), Some((12, false)), None, Some((7, false))]);
    // a slow square wave: low for two samples, high for two
    let mut step_in = AudioBuffer::new(Some(16));
    step_in.put(Some((0..16).map(|i| if i % 4 >= 2 { b(1.0) } else { b(0.0) }).collect()));
    module.calc(&step_in, &AudioBuffer::new(None), &pitch);
    let cv: Vec<f32> = module.get_output(0).unwrap().get().unwrap().iter().map(|v| f(*v)).collect();
    let gate: Vec<f32> = module.get_output(1).unwrap().get().unwrap().iter().map(|v| f(*v)).collect();
    let sync: Vec<f32> = module.get_output(2).unwrap().get().unwrap().iter().map(|v| f(*v)).collect();
    let hz = |cv: f32| 440.0 * 2.0_f64.powf(f64::from(cv));
    // before the first edge the sequencer stands at step 0
    assert_eq!(hz(cv[0]), 440.0);
    // after the first, second and third edge
    assert_eq!(hz(cv[2]), 880.0);
    assert_eq!(hz(cv[6]), 880.0);
    assert!((hz(cv[10]) - 440.0 * 2.0_f64.powf(7.0 / 12.0)).abs() < 0.001);
    // the fourth edge leads back to step 0
    assert_eq!(hz(cv[14]), 440.0);
    // a step that sounds lets the step input through, a silent step nothing
    assert_eq!(&gate[0..8], &[0.0, 0.0, 1.0, 1.0, 0.0, 0.0, 0.0, 0.0]);
    assert_eq!(&gate[8..12], &[0.0, 0.0, 1.0, 1.0]);
    assert_eq!(&sync[0..4], &[1.0, 1.0, 0.0, 0.0]);
    assert_eq!(&sync[12..16], &[0.0, 0.0, 1.0, 1.0]);
    assert_eq!(module.step_state_ref().current_step, 0);
    assert!(module.ui_dirty());
    assert_eq!(f(module.get_last()), 0.0);
}

#[test]
fn deleting_the_amplifier_silences_the_output() {
    let mut chain = chain();
    chain.workspace.delete_module(chain.vca);
    let modules = chain.workspace.get_modules();
    assert_eq!(modules.len(), 3);
    let output = &modules[find(&chain.workspace, chain.output)];
    assert_eq!(output.get_input(0), Ok(None));
    assert_eq!(output.get_input(1), Ok(None));
    let plan = planned_ids(&chain.workspace);
    assert_eq!(plan.len(), 3);
    assert!(!plan.contains(&chain.vca));
    assert!(chain.workspace.get_plan().iter().all(|at| *at < 3));
    let mut engine = AudioEngine::new(&config());
    let data = render(&mut engine, &mut chain.workspace, 2048);
    assert_eq!(data, vec![0.0; 2048]);
    // the oscillator has run all the same
    let osc = block(&chain.workspace.get_modules()[find(&chain.workspace, chain.osc)], 0);
    assert!(osc[27] > 0.99);
}

#[test]
fn the_device_hears_the_chain() {
    let mut chain = chain();
    let ac = config();
    let mut gate = MathModule::new(&ac, MathOperation::Add);
    gate.set_constant(b(1.0));
    let gate_id = gate.id();
    chain.workspace.add_module(SynthModuleType::MathModule(gate)).unwrap();
    chain.workspace.connect(chain.adsr, 0, gate_id, 0).unwrap();
    let mut engine = AudioEngine::new(&ac);
    // a block and a half, in two channels
    let data = render(&mut engine, &mut chain.workspace, 3072);
    let modules = chain.workspace.get_modules();
    let second = channel(&modules[find(&chain.workspace, chain.output)], 0);
    // the frames of the second block are those the output module holds now
    for i in 0..512 {
        assert_eq!(data[2048 + 2 * i], second[i]);
        assert_eq!(data[2048 + 2 * i + 1], second[i]);
    }
    assert!(data[..2048].iter().any(|x| *x != 0.0));
    // the first block is what a chain of its own plays in its first block
    let mut twin = self::chain();
    let mut gate = MathModule::new(&ac, MathOperation::Add);
    gate.set_constant(b(1.0));
    let gate_id = gate.id();
    twin.workspace.add_module(SynthModuleType::MathModule(gate)).unwrap();
    twin.workspace.connect(twin.adsr, 0, gate_id, 0).unwrap();
    execute(&mut twin.workspace);
    let first = channel(&twin.workspace.get_modules()[find(&twin.workspace, twin.output)], 0);
    for i in 0..1024 {
        assert_eq!(data[2 * i], first[i]);
        assert_eq!(data[2 * i + 1], first[i]);
    }
}

fn place_of(id: ModuleId) -> Result<(u32, u32), ()> {
    Ok(((id % 100) as u32, 3))
}

#[test]
fn a_loaded_patch_plays_what_the_saved_patch_plays() {
    let mut chain = chain();
    let ac = config();
    let mut gate = MathModule::new(&ac, MathOperation::Add);
    gate.set_constant(b(1.0));
    let gate_id = gate.id();
    chain.workspace.add_module(SynthModuleType::MathModule(gate)).unwrap();
    chain.workspace.connect(chain.adsr, 0, gate_id, 0).unwrap();
    let file = chain.workspace.serialize(place_of);
    let mut loaded = SynthModuleWorkspaceImpl::new();
    loaded.set_audio_config(ac);
    loaded.deserialize(Some(file)).unwrap();
    for _ in 0..3 {
        execute(&mut chain.workspace);
        execute(&mut loaded);
        for id in [chain.osc, chain.adsr, chain.vca, gate_id] {
            let before = &chain.workspace.get_modules()[find(&chain.workspace, id)];
            let after = &loaded.get_modules()[find(&loaded, id)];
            for port in 0..before.get_num_outputs() {
                assert_eq!(block(before, port), block(after, port));
            }
        }
        let before = &chain.workspace.get_modules()[find(&chain.workspace, chain.output)];
        let after = &loaded.get_modules()[find(&loaded, chain.output)];
        assert_eq!(channel(before, 0), channel(after, 0));
        assert_eq!(channel(before, 1), channel(after, 1));
        assert!(channel(after, 0).iter().any(|x| *x != 0.0));
    }
}
