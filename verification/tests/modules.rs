use s_rack::synth::adsr::{ADSRMode, ADSRModule};
use s_rack::synth::filter::{MoogFilterModule, MoogFilterModuleV0, InternalMoogFilterState};
use s_rack::synth::freeverb::FreeverbModule;
use s_rack::synth::ident::{VERSION_MASK, VERSION_RANDOM};
use s_rack::synth::math::{MathModule, MathOperation};
use s_rack::synth::mixer::MonoMixerModule;
use s_rack::synth::oscillator::{NoiseModule, OscillatorModule};
use s_rack::synth::output::OutputModule;
use s_rack::synth::sample::SampleModule;
use s_rack::synth::sequencer::{
    is_black_key, CellShade, GridSequencerModule, GridSequencerModuleV0, PatternSequencerModule,
    StepState,
};
use s_rack::synth::vca::VCAModule;
use s_rack::synth::{
    get_catalog, get_inputs, shared_are_eq, AudioBuffer, AudioConfig, ModuleKind, SynthModule,
    SynthModuleType, TransitionDetector,
};
use s_rack::ui::SynthModuleHandle;

fn config() -> AudioConfig {
    AudioConfig { sample_rate: 44100, buffer_size: 64, channels: 2 }
}

fn every_kind() -> Vec<SynthModuleType> {
    get_catalog().iter().map(|(_, kind)| kind.construct(&config())).collect()
}

#[test]
fn rising_edges_are_detected() {
    // the detector takes the signal to have been high before its first
    // sample, and reports a sample above zero that follows one at or below
    let mut detector = TransitionDetector::new();
    assert!(detector.last);
    let samples = [0.0_f32, 0.1, 0.1, 0.0, 0.5];
    let edges: Vec<bool> =
        samples.iter().map(|x| detector.is_transition(&x.to_bits())).collect();
    assert_eq!(edges, vec![false, true, false, false, true]);
    assert!(detector.last);
}

#[test]
fn a_signal_that_starts_high_gives_no_edge() {
    let mut detector = TransitionDetector::new();
    assert!(!detector.is_transition(&1.0_f32.to_bits()));
    assert!(!detector.is_transition(&1.0_f32.to_bits()));
    assert!(!detector.is_transition(&0.0_f32.to_bits()));
    assert!(detector.is_transition(&f32::MIN_POSITIVE.to_bits()));
}

#[test]
fn only_numbers_above_zero_are_above_the_threshold() {
    for high in [1.0_f32, 0.1, f32::MIN_POSITIVE, 1.0e-45, f32::MAX, f32::INFINITY] {
        assert!(high > 0.0);
        assert!(TransitionDetector::is_above_threshold(&high.to_bits()));
    }
    for low in [0.0_f32, -0.0, -1.0, -1.0e-45, f32::MIN, f32::NEG_INFINITY, f32::NAN, -f32::NAN] {
        assert!(!(low > 0.0));
        assert!(!TransitionDetector::is_above_threshold(&low.to_bits()));
    }
}

#[test]
fn configurations_keep_their_ranges() {
    assert!(AudioConfig { sample_rate: 48000, buffer_size: 1024, channels: 2 }.is_valid());
    assert!(AudioConfig { sample_rate: 1, buffer_size: 1, channels: 1 }.is_valid());
    assert!(AudioConfig { sample_rate: 96000, buffer_size: 1, channels: 8 }.is_valid());
    assert!(!AudioConfig { sample_rate: 0, buffer_size: 1, channels: 1 }.is_valid());
    assert!(!AudioConfig { sample_rate: 96001, buffer_size: 1, channels: 1 }.is_valid());
    assert!(!AudioConfig { sample_rate: 48000, buffer_size: 0, channels: 1 }.is_valid());
    assert!(!AudioConfig { sample_rate: 48000, buffer_size: 1, channels: 0 }.is_valid());
    assert!(!AudioConfig { sample_rate: 48000, buffer_size: 1, channels: 9 }.is_valid());
}

#[test]
fn buffers_are_silent_when_made_and_keep_their_length() {
    let empty = AudioBuffer::new(None);
    assert!(empty.is_empty());
    assert_eq!(empty.len(), 0);
    assert_eq!(empty.get(), None);
    let mut buffer = AudioBuffer::new(Some(3));
    assert_eq!(buffer.get(), Some(&vec![0, 0, 0]));
    buffer.put(Some(vec![1, 2, 3]));
    buffer.resize(3);
    assert_eq!(buffer.get(), Some(&vec![1, 2, 3]));
    let copy = buffer.deep_clone();
    buffer.resize(2);
    assert_eq!(buffer.get(), Some(&vec![0, 0]));
    assert_eq!(copy.get(), Some(&vec![1, 2, 3]));
    let mut none = AudioBuffer::new(None);
    none.resize(5);
    assert!(none.is_empty());
    assert_eq!(copy.with_read(|block| block.map(|b| b.len())), Some(3));
    assert_eq!(empty.with_read(|block| block.is_none()), true);
    let many = vec![copy.deep_clone(), AudioBuffer::new(None), AudioBuffer::new(Some(1))];
    let lens = AudioBuffer::with_read_many(&many, |blocks| {
        blocks.iter().map(|b| b.map(|v| v.len())).collect::<Vec<_>>()
    });
    assert_eq!(lens, vec![Some(3), None, Some(1)]);
    assert_eq!(buffer.take(), Some(vec![0, 0]));
    assert!(buffer.is_empty());
}

#[test]
fn buffers_are_written_through_a_function() {
    let mut buffer = AudioBuffer::new(Some(3));
    let sum = buffer.with_write(|block| {
        let mut block = block.unwrap();
        block[1] = 7;
        let sum: u32 = block.iter().sum();
        (Some(block), sum)
    });
    assert_eq!(sum, 7);
    assert_eq!(buffer.get(), Some(&vec![0, 7, 0]));
    let mut empty = AudioBuffer::new(None);
    assert!(empty.with_write(|block| (block.clone(), block.is_none())));
    assert!(empty.is_empty());
    let mut many = vec![buffer, empty, AudioBuffer::new(Some(1))];
    let count = AudioBuffer::with_write_many(&mut many, |mut blocks| {
        let count = blocks.iter().filter(|b| b.is_some()).count();
        for block in blocks.iter_mut().flatten() {
            block[0] = 9;
        }
        (blocks, count)
    });
    assert_eq!(count, 2);
    assert_eq!(many[0].get(), Some(&vec![9, 7, 0]));
    assert!(many[1].is_empty());
    assert_eq!(many[2].get(), Some(&vec![9]));
    // blocks that are not handed back leave their buffers empty
    AudioBuffer::with_write_many(&mut many, |mut blocks| {
        blocks.truncate(1);
        (blocks, ())
    });
    assert_eq!(many[0].get(), Some(&vec![9, 7, 0]));
    assert!(many[2].is_empty());
}

#[test]
fn the_catalog_lists_the_kinds_in_order() {
    let names: Vec<String> = get_catalog().into_iter().map(|(name, _)| name).collect();
    assert_eq!(
        names,
        vec![
            "Oscillator",
            "Grid Sequencer",
            "Pattern Sequencer",
            "ADSR",
            "VCA",
            "Moog Filter",
            "Mono Mixer",
            "Sample player",
            "Math",
            "Noise",
            "Freeverb",
            "Output",
        ]
    );
    for (name, kind) in get_catalog() {
        let module = kind.construct(&config());
        assert_eq!(module.get_name(), name);
        assert_eq!(kind.get_name(), name);
        assert!(get_inputs(&module).iter().all(|slot| slot.is_none()));
    }
    assert_eq!(OscillatorModule::get_name(), "Oscillator");
    assert_eq!(NoiseModule::get_name(), "Noise");
    assert_eq!(GridSequencerModule::get_name(), "Grid Sequencer");
    assert_eq!(PatternSequencerModule::get_name(), "Pattern Sequencer");
    assert_eq!(ADSRModule::get_name(), "ADSR");
    assert_eq!(VCAModule::get_name(), "VCA");
    assert_eq!(MoogFilterModule::get_name(), "Moog Filter");
    assert_eq!(MonoMixerModule::get_name(), "Mono Mixer");
    assert_eq!(SampleModule::get_name(), "Sample player");
    assert_eq!(MathModule::get_name(), "Math");
    assert_eq!(MathOperation::Add.get_name(), "Add");
    assert_eq!(MathOperation::Subtract.get_name(), "Subtract");
    assert_eq!(MathOperation::Multiply.get_name(), "Multiply");
    // a math module from the catalog starts as an adder, and can be set
    match ModuleKind::Math.construct(&config()) {
        SynthModuleType::MathModule(mut m) => {
            assert_eq!(m.get_operation(), MathOperation::Add);
            m.set_operation(MathOperation::Multiply);
            assert_eq!(m.get_operation(), MathOperation::Multiply);
            assert_eq!(m.get_constant(), 0);
        }
        _ => panic!("not a math module"),
    }
    assert_eq!(FreeverbModule::get_name(), "Freeverb");
    assert_eq!(OutputModule::get_name(), "Output");
}

#[test]
fn every_kind_has_its_ports() {
    let expected: Vec<(u8, u8)> = vec![
        (2, 3),
        (2, 3),
        (2, 9),
        (1, 1),
        (2, 1),
        (2, 3),
        (4, 1),
        (2, 1),
        (2, 1),
        (0, 1),
        (2, 2),
        (2, 0),
    ];
    for (module, (inputs, outputs)) in every_kind().iter().zip(expected) {
        assert_eq!(module.get_num_inputs(), inputs, "{}", module.get_name());
        assert_eq!(module.get_num_outputs(), outputs, "{}", module.get_name());
        assert_eq!(get_inputs(module).len(), inputs as usize);
        for i in 0..=255_u8 {
            assert_eq!(module.get_input(i).is_ok(), i < inputs);
            assert_eq!(module.get_input_label(i).is_ok(), i < inputs);
            assert_eq!(module.get_output(i).is_ok(), i < outputs);
            assert_eq!(module.get_output_label(i).is_ok(), i < outputs);
            if i < outputs {
                assert_eq!(module.get_output(i).unwrap().len(), 64);
            }
        }
    }
}

#[test]
fn ports_carry_their_labels() {
    let label = |kind: ModuleKind, input: bool, i: u8| {
        let module = kind.construct(&config());
        if input { module.get_input_label(i).unwrap() } else { module.get_output_label(i).unwrap() }
    };
    let some = |text: &str| Some(String::from(text));
    assert_eq!(label(ModuleKind::Oscillator, true, 0), some("CV"));
    assert_eq!(label(ModuleKind::Oscillator, true, 1), some("Sync"));
    assert_eq!(label(ModuleKind::Oscillator, false, 0), some("Sine"));
    assert_eq!(label(ModuleKind::Oscillator, false, 1), some("Square"));
    assert_eq!(label(ModuleKind::Oscillator, false, 2), some("Sawtooth"));
    assert_eq!(label(ModuleKind::GridSequencer, true, 0), some("Step"));
    assert_eq!(label(ModuleKind::GridSequencer, true, 1), some("Sync"));
    assert_eq!(label(ModuleKind::GridSequencer, false, 0), some("CV"));
    assert_eq!(label(ModuleKind::GridSequencer, false, 1), some("Gate"));
    assert_eq!(label(ModuleKind::GridSequencer, false, 2), some("Sync"));
    assert_eq!(label(ModuleKind::PatternSequencer, false, 0), some("0"));
    assert_eq!(label(ModuleKind::PatternSequencer, false, 7), some("7"));
    assert_eq!(label(ModuleKind::PatternSequencer, false, 8), some("Sync"));
    assert_eq!(label(ModuleKind::Adsr, true, 0), some("Gate"));
    assert_eq!(label(ModuleKind::Adsr, false, 0), None);
    assert_eq!(label(ModuleKind::Vca, true, 0), some("Audio"));
    assert_eq!(label(ModuleKind::Vca, true, 1), some("CV"));
    assert_eq!(label(ModuleKind::MoogFilter, true, 0), some("Audio"));
    assert_eq!(label(ModuleKind::MoogFilter, false, 2), None);
    assert_eq!(label(ModuleKind::MonoMixer, true, 3), None);
    assert_eq!(label(ModuleKind::Sample, true, 0), some("Gate"));
    assert_eq!(label(ModuleKind::Math, true, 0), some("In1"));
    assert_eq!(label(ModuleKind::Math, true, 1), some("In2"));
    assert_eq!(label(ModuleKind::Freeverb, true, 0), some("Left"));
    assert_eq!(label(ModuleKind::Freeverb, false, 1), some("Right"));
    assert_eq!(label(ModuleKind::Output, true, 1), None);
}

#[test]
fn identities_are_random_and_written_as_text() {
    let a = VCAModule::new(&config());
    let b = VCAModule::new(&config());
    assert_ne!(a.id(), b.id());
    assert_eq!(a.id() & VERSION_MASK, VERSION_RANDOM);
    assert_eq!(b.id() & VERSION_MASK, VERSION_RANDOM);
    let text = a.get_id();
    assert_eq!(text.len(), 36);
    assert_eq!(uuid::Uuid::parse_str(&text).unwrap().as_u128(), a.id());
    assert_eq!(text, a.get_id());
    assert_ne!(text, b.get_id());
    let fixed = VCAModule::restore(0xa1a2a3a4b1b2c1c2d1d2d3d4d5d6d7d8, true, &config());
    assert_eq!(fixed.get_id(), "a1a2a3a4-b1b2-c1c2-d1d2-d3d4d5d6d7d8");
    assert_eq!(
        s_rack::synth::ident::text_of(0xa1a2a3a4_b1b2_c1c2_d1d2_d3d4d5d6d7d8),
        "a1a2a3a4-b1b2-c1c2-d1d2-d3d4d5d6d7d8"
    );
    assert!(fixed.is_negative());
    let a = SynthModuleType::VCAModule(a);
    let b = SynthModuleType::VCAModule(b);
    assert!(shared_are_eq(&a, &a));
    assert!(!shared_are_eq(&a, &b));
    assert!(shared_are_eq(&a, &a.deep_clone()));
}

#[test]
fn the_same_output_buffer_at_every_call() {
    let mut module = OscillatorModule::new(&config());
    assert!(std::ptr::eq(module.get_output(1).unwrap(), module.get_output(1).unwrap()));
    assert!(!std::ptr::eq(module.get_output(1).unwrap(), module.get_output(2).unwrap()));
    let first = module.get_output(1).unwrap() as &AudioBuffer;
    assert_eq!(first.get(), module.get_output(1).unwrap().get());
    // connecting leaves the buffers as they are
    module.set_input(0, 5, 0).unwrap();
    assert_eq!(module.get_output(1).unwrap().get(), Some(&vec![0; 64]));
}

#[test]
fn disconnecting_twice_is_disconnecting_once() {
    for mut module in every_kind() {
        let inputs = module.get_num_inputs();
        if inputs == 0 {
            assert_eq!(module.disconnect_input(0), Err(()));
            continue;
        }
        let last = inputs - 1;
        module.set_input(last, 7, 1).unwrap();
        assert_eq!(module.disconnect_input(last), Ok(()));
        let once = get_inputs(&module);
        assert_eq!(module.disconnect_input(last), Ok(()));
        assert_eq!(get_inputs(&module), once);
        assert_eq!(module.get_input(last), Ok(None));
        assert_eq!(module.disconnect_input(inputs), Err(()));
    }
}

#[test]
fn connecting_again_is_connecting_once() {
    for mut module in every_kind() {
        if module.get_num_inputs() == 0 {
            assert_eq!(module.set_input(0, 7, 1), Err(()));
            continue;
        }
        let mut once = module.deep_clone();
        once.set_input(0, 7, 1).unwrap();
        module.set_input(0, 7, 1).unwrap();
        module.disconnect_input(0).unwrap();
        module.set_input(0, 7, 1).unwrap();
        assert_eq!(get_inputs(&module), get_inputs(&once));
        assert_eq!(module.get_input(0), Ok(Some((7, 1))));
        assert_eq!(module.id(), once.id());
        assert_eq!(module.get_name(), once.get_name());
        assert_eq!(module.get_num_outputs(), once.get_num_outputs());
        // a second connection takes the place of the first
        module.set_input(0, 8, 2).unwrap();
        assert_eq!(module.get_input(0), Ok(Some((8, 2))));
        let inputs = module.get_num_inputs();
        assert_eq!(module.set_input(inputs, 7, 1), Err(()));
        module.disconnect_inputs();
        assert!(get_inputs(&module).iter().all(|slot| slot.is_none()));
        assert_eq!(get_inputs(&module).len(), inputs as usize);
    }
}

#[test]
fn fresh_modules_have_the_settings_of_their_kind() {
    let ac = config();
    let f = |bits: u32| f32::from_bits(bits);
    let osc = OscillatorModule::new(&ac);
    assert_eq!(f(osc.state_ref().val), 0.0);
    assert_eq!(osc.state_ref().sample_rate, 44100);
    assert_eq!(f64::from_bits(osc.state_ref().pos), 0.0);
    assert!(osc.state_ref().antialiasing);
    let adsr = ADSRModule::new(&ac);
    let env = adsr.envelope_ref();
    assert_eq!((f(env.a_sec), f(env.d_sec), f(env.s_val), f(env.r_sec)), (0.0, 0.5, 0.25, 0.5));
    assert_eq!(env.mode, ADSRMode::Idle);
    assert_eq!(env.sample_rate, 44100);
    assert!(!adsr.ui_dirty());
    let filter = MoogFilterModule::new(&ac);
    let set = filter.settings_ref();
    assert_eq!((f(set.freq), f(set.res), f(set.exp_amt)), (0.2, 0.5, 0.5));
    assert_eq!(set.state.b.map(f), [0.0; 5]);
    let mixer = MonoMixerModule::new(&ac);
    for i in 0..4 {
        assert_eq!(mixer.get_gain(i).map(f), Ok(1.0));
    }
    assert_eq!(mixer.get_gain(4), Err(()));
    let vca = VCAModule::new(&ac);
    assert!(!vca.is_negative());
    let math = MathModule::new(&ac, MathOperation::Multiply);
    assert_eq!(f(math.get_constant()), 0.0);
    assert_eq!(math.get_operation(), MathOperation::Multiply);
    let sample = SampleModule::new(&ac);
    assert!(!sample.player_ref().playing);
    assert_eq!(sample.wavebox_ref().samples.len(), 0);
    let grid = GridSequencerModule::new(&ac);
    assert_eq!(grid.get_sequence(), &vec![None; 64]);
    assert_eq!((grid.get_octaves(), grid.get_steps_per_octave()), (2, 12));
    let pattern = PatternSequencerModule::new(&ac);
    assert_eq!(pattern.get_sequence(), &vec![vec![None; 64]; 8]);
    let reverb = FreeverbModule::new(&ac);
    let set = reverb.settings_ref();
    let d = |bits: u64| f64::from_bits(bits);
    assert_eq!((d(set.dampening), d(set.wet), d(set.width)), (0.5, 1.0, 0.5));
    assert_eq!((d(set.room_size), d(set.dry)), (0.5, 0.0));
    assert!(!set.freeze && !set.primed);
    assert_eq!(set.sample_rate, 44100);
    let output = OutputModule::new(&AudioConfig { sample_rate: 44100, buffer_size: 8, channels: 5 });
    assert_eq!(output.get_num_inputs(), 5);
    assert_eq!(output.get_buf(4).unwrap().len(), 8);
    assert!(output.get_buf(5).is_err());
}

#[test]
fn a_new_configuration_reshapes_the_buffers() {
    let other = AudioConfig { sample_rate: 22050, buffer_size: 16, channels: 2 };
    for mut module in every_kind() {
        let inputs = module.get_num_inputs();
        if inputs > 0 {
            module.set_input(0, 3, 0).unwrap();
        }
        let (id, name) = (module.id(), module.get_name());
        let slots = get_inputs(&module);
        module.set_audio_config(&other);
        assert_eq!(module.id(), id);
        assert_eq!(module.get_name(), name);
        assert_eq!(get_inputs(&module), slots);
        for port in 0..module.get_num_outputs() {
            assert_eq!(module.get_output(port).unwrap().get(), Some(&vec![0; 16]));
        }
        match &module {
            SynthModuleType::OscillatorModule(m) => assert_eq!(m.state_ref().sample_rate, 22050),
            SynthModuleType::ADSRModule(m) => assert_eq!(m.envelope_ref().sample_rate, 22050),
            SynthModuleType::SampleModule(m) => assert_eq!(m.player_ref().sample_rate, 22050),
            SynthModuleType::FreeverbModule(m) => assert_eq!(m.settings_ref().sample_rate, 22050),
            SynthModuleType::OutputModule(m) => assert_eq!(m.get_buf(1).unwrap().len(), 16),
            _ => {}
        }
    }
}

#[test]
fn a_reverberator_is_set_up_anew_for_a_new_sample_rate() {
    let mut reverb = FreeverbModule::new(&config());
    reverb.settings_mut().primed = true;
    reverb.set_audio_config(&config());
    assert!(reverb.settings_ref().primed);
    reverb.set_audio_config(&AudioConfig { sample_rate: 48000, buffer_size: 64, channels: 2 });
    assert!(!reverb.settings_ref().primed);
    assert_eq!(reverb.settings_ref().sample_rate, 48000);
}

#[test]
fn black_keys_are_the_sharps() {
    let black: Vec<u16> = (0..24).filter(|note| is_black_key(*note)).collect();
    assert_eq!(black, vec![1, 3, 6, 8, 10, 13, 15, 18, 20, 22]);
}

#[test]
fn grid_edits_keep_the_ranges() {
    let mut grid = GridSequencerModule::new(&config());
    assert_eq!(grid.set_octaves(0), Err(()));
    assert_eq!(grid.set_octaves(5), Err(()));
    assert_eq!(grid.get_octaves(), 2);
    assert_eq!(grid.set_octaves(4), Ok(()));
    assert_eq!(grid.set_octaves(1), Ok(()));
    assert_eq!(grid.get_octaves(), 1);
    assert_eq!(grid.set_steps(1), Err(()));
    assert_eq!(grid.set_steps(65), Err(()));
    assert_eq!(grid.get_sequence().len(), 64);
    grid.toggle_cell(1, 5).unwrap();
    grid.toggle_cell(3, 9).unwrap();
    assert_eq!(grid.set_steps(2), Ok(()));
    assert_eq!(grid.get_sequence(), &vec![None, Some((5, true))]);
    assert_eq!(grid.set_steps(4), Ok(()));
    assert_eq!(grid.get_sequence(), &vec![None, Some((5, true)), None, None]);
    assert_eq!(grid.toggle_cell(4, 0), Err(()));
    // held, gated, silent, held again
    grid.toggle_cell(1, 5).unwrap();
    assert_eq!(grid.get_sequence()[1], Some((5, false)));
    grid.toggle_cell(1, 5).unwrap();
    assert_eq!(grid.get_sequence()[1], None);
    grid.toggle_cell(1, 5).unwrap();
    assert_eq!(grid.get_sequence()[1], Some((5, true)));
    // a click on another row moves the note there
    grid.toggle_cell(1, 6).unwrap();
    assert_eq!(grid.get_sequence()[1], Some((6, true)));
}

#[test]
fn grid_cells_are_shaded_by_the_last_reason_that_holds() {
    let mut grid = GridSequencerModule::new(&config());
    grid.toggle_cell(2, 4).unwrap();
    grid.toggle_cell(3, 4).unwrap();
    grid.toggle_cell(3, 4).unwrap();
    assert_eq!(grid.cell_shade(2, 4), CellShade::Held);
    assert_eq!(grid.cell_shade(3, 4), CellShade::Gated);
    assert_eq!(grid.cell_shade(0, 4), CellShade::Current);
    assert_eq!(grid.cell_shade(0, 0), CellShade::Current);
    assert_eq!(grid.cell_shade(4, 12), CellShade::Octave);
    assert_eq!(grid.cell_shade(4, 13), CellShade::BlackKey);
    assert_eq!(grid.cell_shade(4, 14), CellShade::Beat);
    assert_eq!(grid.cell_shade(5, 14), CellShade::Plain);
    assert_eq!(grid.cell_shade(2, 5), CellShade::Plain);
    let mut pattern = PatternSequencerModule::new(&config());
    pattern.toggle_cell(7, 1).unwrap();
    pattern.toggle_cell(6, 1).unwrap();
    pattern.toggle_cell(6, 1).unwrap();
    assert_eq!(pattern.cell_shade(7, 1), CellShade::Held);
    assert_eq!(pattern.cell_shade(6, 1), CellShade::Gated);
    assert_eq!(pattern.cell_shade(5, 0), CellShade::Current);
    assert_eq!(pattern.cell_shade(5, 4), CellShade::Beat);
    assert_eq!(pattern.cell_shade(5, 5), CellShade::Plain);
    pattern.toggle_cell(6, 1).unwrap();
    assert_eq!(pattern.get_sequence()[6][1], None);
    assert_eq!(pattern.toggle_cell(8, 0), Err(()));
    assert_eq!(pattern.toggle_cell(0, 64), Err(()));
    assert_eq!(pattern.set_steps(1), Err(()));
    assert_eq!(pattern.set_steps(65), Err(()));
    assert_eq!(pattern.set_steps(3), Ok(()));
    assert!(pattern.get_sequence().iter().all(|row| row.len() == 3));
    assert_eq!(pattern.get_sequence()[7], vec![None, Some(true), None]);
}

#[test]
fn the_display_clears_the_dirty_mark() {
    let mut grid = GridSequencerModule::new(&config());
    let mut step_in = AudioBuffer::new(Some(64));
    step_in.put(Some((0..64).map(|i| if i == 1 { 1.0_f32.to_bits() } else { 0 }).collect()));
    grid.calc(&step_in, &AudioBuffer::new(None), &|_, _| 0);
    assert!(grid.ui_dirty());
    assert_eq!(grid.step_state_ref().current_step, 1);
    grid.clear_ui_dirty();
    assert!(!grid.ui_dirty());
    assert_eq!(grid.step_state_ref().current_step, 1);
}

#[test]
fn modules_are_restored_with_their_settings() {
    let ac = config();
    assert!(MonoMixerModule::restore(1, vec![0; 3], &ac).is_err());
    let mixer = MonoMixerModule::restore(1, vec![1, 2, 3, 4], &ac).unwrap();
    assert_eq!(mixer.id(), 1);
    assert_eq!(mixer.get_gain(2), Ok(3));
    assert!(GridSequencerModule::restore(2, vec![None; 1], 2, 12, StepState::new(), 0, &ac).is_err());
    assert!(GridSequencerModule::restore(2, vec![None; 65], 2, 12, StepState::new(), 0, &ac).is_err());
    assert!(GridSequencerModule::restore(2, vec![None; 8], 0, 12, StepState::new(), 0, &ac).is_err());
    assert!(GridSequencerModule::restore(2, vec![None; 8], 5, 12, StepState::new(), 0, &ac).is_err());
    assert!(GridSequencerModule::restore(2, vec![None; 8], 2, 0, StepState::new(), 0, &ac).is_err());
    let grid =
        GridSequencerModule::restore(2, vec![Some((3, true)), None], 4, 7, StepState::new(), 9, &ac)
            .unwrap();
    assert_eq!(grid.get_sequence(), &vec![Some((3, true)), None]);
    assert_eq!((grid.get_octaves(), grid.get_steps_per_octave(), grid.get_last()), (4, 7, 9));
    assert!(PatternSequencerModule::restore(3, vec![vec![None; 4]; 7], StepState::new(), &ac).is_err());
    let mut uneven = vec![vec![None; 4]; 8];
    uneven[5] = vec![None; 3];
    assert!(PatternSequencerModule::restore(3, uneven, StepState::new(), &ac).is_err());
    assert!(PatternSequencerModule::restore(3, vec![vec![None; 1]; 8], StepState::new(), &ac).is_err());
    let pattern =
        PatternSequencerModule::restore(3, vec![vec![Some(true); 2]; 8], StepState::new(), &ac).unwrap();
    assert_eq!(pattern.id(), 3);
    assert_eq!(pattern.get_num_outputs(), 9);
    let old = GridSequencerModuleV0 {
        id: 4,
        sequence: vec![Some(5), None, Some(0)],
        octaves: 3,
        steps_per_octave: 12,
        steps: StepState::new(),
        last: 0,
    };
    let grid = GridSequencerModule::from_v0(old, &ac).unwrap();
    assert_eq!(grid.get_sequence(), &vec![Some((5, false)), None, Some((0, false))]);
    assert_eq!(grid.id(), 4);
    let old = MoogFilterModuleV0 {
        id: 5,
        freq: 1,
        res: 2,
        exp_amt: 3,
        state: InternalMoogFilterState::new(),
    };
    let filter = MoogFilterModule::from_v0(old, &ac);
    assert_eq!(filter.id(), 5);
    assert_eq!(filter.get_num_outputs(), 3);
    assert_eq!(filter.settings_ref().exp_amt, 3);
}

#[test]
fn a_handle_keeps_its_tooltip() {
    assert_eq!(SynthModuleHandle::new(None).tooltip, None);
    let handle = SynthModuleHandle::new(Some(String::from("Sine")));
    assert_eq!(handle.tooltip, Some(String::from("Sine")));
}
