use s_rack::patch::{any_module_to_enum, prep_for_serialization, FileFormat};
use s_rack::synth::adsr::ADSRModule;
use s_rack::synth::oscillator::OscillatorModule;
use s_rack::synth::output::OutputModule;
use s_rack::synth::vca::VCAModule;
use s_rack::synth::{
    get_inputs, resolve_input, ui_dirty, AudioBuffer, AudioConfig, ModuleId, ModuleKind,
    SynthModule, SynthModuleType,
};
use s_rack::ui::{
    disconnect_port, disconnect_source, ids_distinct, SynthModuleWorkspace,
    SynthModuleWorkspaceImpl,
};

fn config() -> AudioConfig {
    AudioConfig { sample_rate: 48000, buffer_size: 1024, channels: 2 }
}

struct Chain {
    workspace: SynthModuleWorkspaceImpl,
    osc: ModuleId,
    adsr: ModuleId,
    vca: ModuleId,
    output: ModuleId,
}

fn chain() -> Chain {
    let ac = config();
    let mut workspace = SynthModuleWorkspaceImpl::new();
    workspace.set_audio_config(ac);
    let mut osc = OscillatorModule::new(&ac);
    osc.state_mut().val = 0.5_f32.to_bits();
    let mut adsr = ADSRModule::new(&ac);
    {
        let env = adsr.envelope_mut();
        env.a_sec = 0.01_f32.to_bits();
        env.d_sec = 0.1_f32.to_bits();
        env.s_val = 0.5_f32.to_bits();
        env.r_sec = 0.1_f32.to_bits();
    }
    let mut vca = VCAModule::new(&ac);
    vca.set_negative(true);
    let output = OutputModule::new(&ac);
    let ids = (osc.id(), adsr.id(), vca.id(), output.id());
    workspace.add_module(SynthModuleType::OscillatorModule(osc)).unwrap();
    workspace.add_module(SynthModuleType::ADSRModule(adsr)).unwrap();
    workspace.add_module(SynthModuleType::VCAModule(vca)).unwrap();
    workspace.add_module(SynthModuleType::OutputModule(output)).unwrap();
    workspace.connect(ids.2, 0, ids.0, 0).unwrap();
    workspace.connect(ids.2, 1, ids.1, 0).unwrap();
    workspace.connect(ids.3, 0, ids.2, 0).unwrap();
    workspace.connect(ids.3, 1, ids.2, 0).unwrap();
    Chain { workspace, osc: ids.0, adsr: ids.1, vca: ids.2, output: ids.3 }
}

fn find(workspace: &SynthModuleWorkspaceImpl, id: ModuleId) -> &SynthModuleType {
    workspace.get_modules().iter().find(|m| m.id() == id).unwrap()
}

fn place(id: ModuleId) -> Result<(u32, u32), ()> {
    if id % 2 == 0 {
        Ok(((id % 1000) as u32, 7))
    } else {
        Err(())
    }
}

#[test]
fn a_patch_comes_back_from_its_file() {
    let chain = chain();
    let file = chain.workspace.serialize(place);
    assert_eq!(file.modules.len(), 4);
    assert_eq!(
        file.connections,
        vec![
            (chain.osc, 0, chain.vca, 0),
            (chain.adsr, 0, chain.vca, 1),
            (chain.vca, 0, chain.output, 0),
            (chain.vca, 0, chain.output, 1),
        ]
    );
    assert!(file.modules.iter().all(|m| get_inputs(m).iter().all(|slot| slot.is_none())));
    let expected_positions: Vec<(ModuleId, (u32, u32))> = [chain.osc, chain.adsr, chain.vca, chain.output]
        .iter()
        .filter(|id| **id % 2 == 0)
        .map(|id| (*id, ((*id % 1000) as u32, 7)))
        .collect();
    assert_eq!(file.positions, expected_positions);

    let mut loaded = SynthModuleWorkspaceImpl::new();
    loaded.set_audio_config(config());
    assert_eq!(loaded.deserialize(Some(file)), Ok(()));
    assert_eq!(loaded.get_loads(), 1);
    assert_eq!(loaded.get_modules().len(), 4);
    // the modules, the last first
    let ids: Vec<ModuleId> = loaded.get_modules().iter().map(|m| m.id()).collect();
    assert_eq!(ids, vec![chain.output, chain.vca, chain.adsr, chain.osc]);
    for id in [chain.osc, chain.adsr, chain.vca, chain.output] {
        let (before, after) = (find(&chain.workspace, id), find(&loaded, id));
        assert_eq!(before.get_name(), after.get_name());
        assert_eq!(before.get_id(), after.get_id());
        assert_eq!(get_inputs(before), get_inputs(after));
        assert_eq!(before.get_num_outputs(), after.get_num_outputs());
        match (before, after) {
            (SynthModuleType::OscillatorModule(a), SynthModuleType::OscillatorModule(b)) => {
                assert_eq!(a.state_ref(), b.state_ref());
                assert_eq!(f32::from_bits(b.state_ref().val), 0.5);
            }
            (SynthModuleType::ADSRModule(a), SynthModuleType::ADSRModule(b)) => {
                assert_eq!(a.envelope_ref(), b.envelope_ref());
                assert_eq!(f32::from_bits(b.envelope_ref().d_sec), 0.1);
            }
            (SynthModuleType::VCAModule(a), SynthModuleType::VCAModule(b)) => {
                assert_eq!(a.is_negative(), b.is_negative());
                assert!(b.is_negative());
            }
            (SynthModuleType::OutputModule(a), SynthModuleType::OutputModule(b)) => {
                assert_eq!(a.get_buf(1).unwrap().len(), b.get_buf(1).unwrap().len());
            }
            _ => panic!("a module has changed its kind"),
        }
    }
    for (id, pos) in expected_positions {
        assert_eq!(loaded.get_position(id), Some(pos));
    }
    assert_eq!(loaded.get_position(chain.osc | 1), None);
    // the plan has been made for the patch that was loaded
    let plan: Vec<ModuleId> =
        loaded.get_plan().iter().map(|at| loaded.get_modules()[*at].id()).collect();
    assert_eq!(plan, vec![chain.adsr, chain.osc, chain.vca, chain.output]);
    assert_eq!(loaded.get_output(), Some(0));
}

#[test]
fn a_load_that_fails_leaves_the_patch_disconnected() {
    let mut chain = chain();
    let plan = chain.workspace.get_plan().clone();
    assert_eq!(chain.workspace.deserialize(None), Err(()));
    assert_eq!(chain.workspace.get_loads(), 1);
    assert_eq!(chain.workspace.get_modules().len(), 4);
    for module in chain.workspace.get_modules() {
        assert!(get_inputs(module).iter().all(|slot| slot.is_none()));
    }
    assert_eq!(chain.workspace.get_plan(), &plan);
    // two modules with one identity
    let twin = find(&chain.workspace, chain.osc).deep_clone();
    let mut file = FileFormat::new();
    file.modules.push(twin.deep_clone());
    file.modules.push(twin);
    assert_eq!(chain.workspace.deserialize(Some(file)), Err(()));
    assert_eq!(chain.workspace.get_loads(), 2);
    assert_eq!(chain.workspace.get_modules().len(), 4);
    // no audio configuration yet
    let mut bare = SynthModuleWorkspaceImpl::new();
    assert_eq!(bare.deserialize(Some(FileFormat::new())), Err(()));
    assert_eq!(bare.get_loads(), 1);
    // an empty file is a patch like any other
    assert_eq!(chain.workspace.deserialize(Some(FileFormat::new())), Ok(()));
    assert_eq!(chain.workspace.get_modules().len(), 0);
    assert_eq!(chain.workspace.get_plan().len(), 0);
    assert_eq!(chain.workspace.get_output(), None);
    assert_eq!(chain.workspace.get_loads(), 3);
}

#[test]
fn connections_to_what_is_not_there_are_passed_over() {
    let ac = config();
    let osc = OscillatorModule::restore(1, *OscillatorModule::new(&ac).state_ref(), &ac);
    let vca = VCAModule::restore(2, false, &ac);
    let mut file = FileFormat::new();
    file.modules.push(SynthModuleType::OscillatorModule(osc));
    file.modules.push(SynthModuleType::VCAModule(vca));
    file.connections = vec![
        (1, 2, 2, 0),  // made: the sawtooth into the audio input
        (1, 0, 2, 0),  // a second connection to the same input: the first stays
        (1, 3, 2, 1),  // the oscillator has no output 3
        (9, 0, 2, 1),  // there is no module 9
        (1, 0, 2, 2),  // the amplifier has no input 2
        (1, 0, 9, 0),  // there is no module 9
        (2, 0, 1, 1),  // made: the amplifier into the sync input
    ];
    file.positions = vec![(2, (5, 6)), (2, (7, 8)), (1, (1, 1))];
    let mut workspace = SynthModuleWorkspaceImpl::new();
    workspace.set_audio_config(AudioConfig { sample_rate: 22050, buffer_size: 8, channels: 1 });
    assert_eq!(workspace.deserialize(Some(file)), Ok(()));
    let modules = workspace.get_modules();
    assert_eq!(modules[0].id(), 2);
    assert_eq!(get_inputs(&modules[0]), vec![Some((1, 2)), None]);
    assert_eq!(get_inputs(&modules[1]), vec![None, Some((2, 0))]);
    // the modules have been given the configuration of the workspace
    assert_eq!(modules[1].get_output(0).unwrap().len(), 8);
    match &modules[1] {
        SynthModuleType::OscillatorModule(m) => assert_eq!(m.state_ref().sample_rate, 22050),
        _ => panic!("not an oscillator"),
    }
    // of two positions for a module the first counts
    assert_eq!(workspace.get_position(2), Some((5, 6)));
    assert_eq!(workspace.get_position(1), Some((1, 1)));
    // without an output module there is nothing to plan
    assert_eq!(workspace.get_plan().len(), 0);
    assert_eq!(workspace.get_output(), None);
}

#[test]
fn modules_are_copied_into_a_file_without_their_connections() {
    let chain = chain();
    let vca = find(&chain.workspace, chain.vca);
    let copy = any_module_to_enum(vca).unwrap();
    assert_eq!(copy.id(), chain.vca);
    assert_eq!(get_inputs(&copy), vec![None, None]);
    assert_eq!(get_inputs(vca), vec![Some((chain.osc, 0)), Some((chain.adsr, 0))]);
    let osc = OscillatorModule::new(&config());
    let copy = prep_for_serialization(&osc);
    assert_eq!(copy.id(), osc.id());
    assert_eq!(copy.state_ref(), osc.state_ref());
    let mut file = FileFormat::new();
    file.capture_modules(chain.workspace.get_modules());
    file.capture_modules(chain.workspace.get_modules());
    assert_eq!(file.modules.len(), 8);
    file.capture_connections(chain.workspace.get_modules());
    assert_eq!(file.connections.len(), 4);
    file.capture_pos(chain.workspace.get_modules(), |_| Ok((1, 2)));
    assert_eq!(file.positions.len(), 4);
    assert_eq!(file.unpack_pos().len(), 4);
    assert_eq!(file.positions.len(), 0);
    let mut modules = vec![];
    file.unpack_modules(&mut modules, &config());
    assert_eq!(file.modules.len(), 0);
    assert_eq!(modules.len(), 8);
    assert!(!ids_distinct(&modules));
    modules.truncate(4);
    assert!(ids_distinct(&modules));
    assert_eq!(modules[0].id(), chain.output);
    assert_eq!(file.unpack_connections(&mut modules), Ok(()));
    assert_eq!(file.connections.len(), 0);
    assert_eq!(get_inputs(&modules[1]), vec![Some((chain.osc, 0)), Some((chain.adsr, 0))]);
}

#[test]
fn connections_need_both_ends() {
    let mut chain = chain();
    let before: Vec<_> = chain.workspace.get_modules().iter().map(|m| get_inputs(m)).collect();
    assert_eq!(chain.workspace.connect(99, 0, chain.osc, 0), Err(()));
    assert_eq!(chain.workspace.connect(chain.vca, 0, 99, 0), Err(()));
    assert_eq!(chain.workspace.connect(chain.vca, 2, chain.osc, 0), Err(()));
    assert_eq!(chain.workspace.connect(chain.vca, 0, chain.osc, 3), Err(()));
    assert_eq!(chain.workspace.connect(chain.vca, 0, chain.output, 0), Err(()));
    assert_eq!(chain.workspace.disconnect_input(99, 0), Err(()));
    assert_eq!(chain.workspace.disconnect_input(chain.vca, 2), Err(()));
    let after: Vec<_> = chain.workspace.get_modules().iter().map(|m| get_inputs(m)).collect();
    assert_eq!(before, after);
    // a connection takes the place of the one before
    assert_eq!(chain.workspace.connect(chain.vca, 0, chain.osc, 2), Ok(()));
    assert_eq!(find(&chain.workspace, chain.vca).get_input(0), Ok(Some((chain.osc, 2))));
    assert_eq!(chain.workspace.disconnect_input(chain.vca, 0), Ok(()));
    assert_eq!(chain.workspace.disconnect_input(chain.vca, 0), Ok(()));
    assert_eq!(find(&chain.workspace, chain.vca).get_input(0), Ok(None));
    assert_eq!(find(&chain.workspace, chain.vca).get_input(1), Ok(Some((chain.adsr, 0))));
}

#[test]
fn an_output_port_is_unplugged_everywhere() {
    let mut chain = chain();
    chain.workspace.connect(chain.osc, 1, chain.vca, 0).unwrap();
    assert!(!chain.workspace.disconnect_output(chain.vca, 1));
    assert!(!chain.workspace.disconnect_output(99, 0));
    assert!(chain.workspace.disconnect_output(chain.vca, 0));
    assert_eq!(get_inputs(find(&chain.workspace, chain.output)), vec![None, None]);
    assert_eq!(get_inputs(find(&chain.workspace, chain.osc)), vec![None, None]);
    assert_eq!(
        get_inputs(find(&chain.workspace, chain.vca)),
        vec![Some((chain.osc, 0)), Some((chain.adsr, 0))]
    );
    let mut module = find(&chain.workspace, chain.vca).deep_clone();
    assert!(!disconnect_port(&mut module, chain.osc, 1));
    assert!(disconnect_port(&mut module, chain.osc, 0));
    assert_eq!(get_inputs(&module), vec![None, Some((chain.adsr, 0))]);
    disconnect_source(&mut module, chain.adsr);
    assert_eq!(get_inputs(&module), vec![None, None]);
}

#[test]
fn a_workspace_holds_each_identity_once() {
    let mut chain = chain();
    let twin = find(&chain.workspace, chain.osc).deep_clone();
    let plan = chain.workspace.get_plan().clone();
    assert_eq!(chain.workspace.add_module(twin), Err(()));
    assert_eq!(chain.workspace.get_modules().len(), 4);
    assert_eq!(chain.workspace.get_plan(), &plan);
    // a module that is added is planned at once
    let extra = ModuleKind::Math.construct(&config());
    let extra_id = extra.id();
    assert_eq!(chain.workspace.add_module(extra), Ok(()));
    assert_eq!(chain.workspace.get_plan().len(), 5);
    assert!(chain.workspace.get_plan().contains(&4));
    chain.workspace.connect(chain.osc, 0, extra_id, 0).unwrap();
    assert_eq!(chain.workspace.get_plan().len(), 5);
    // deleting what is not there leaves the modules alone
    chain.workspace.delete_module(12345);
    assert_eq!(chain.workspace.get_modules().len(), 5);
    chain.workspace.delete_module(chain.output);
    assert_eq!(chain.workspace.get_modules().len(), 4);
    assert_eq!(chain.workspace.get_plan().len(), 0);
    assert_eq!(chain.workspace.get_output(), None);
    assert_eq!(chain.workspace.find_output(), Err(()));
    assert_eq!(chain.workspace.get_audio_config(), Some(config()));
}

#[test]
fn the_program_holds_a_workspace() {
    let mut workspace = SynthModuleWorkspace::new();
    assert_eq!(workspace.get_plan().len(), 0);
    assert_eq!(workspace.get_output(), None);
    workspace.set_audio_config(config());
    assert_eq!(workspace.value().get_audio_config(), Some(config()));
    let output = ModuleKind::Output.construct(&config());
    let osc = ModuleKind::Oscillator.construct(&config());
    let (output_id, osc_id) = (output.id(), osc.id());
    assert_eq!(workspace.add_module(osc), Ok(()));
    assert_eq!(workspace.add_module(output), Ok(()));
    workspace.value_mut().connect(output_id, 1, osc_id, 0).unwrap();
    assert_eq!(workspace.get_plan(), &vec![0, 1]);
    assert_eq!(workspace.get_output(), Some(1));
    assert_eq!(workspace.value().find_output(), Ok(1));
    workspace.delete_module(osc_id);
    assert_eq!(workspace.get_plan(), &vec![0]);
    assert_eq!(workspace.get_output(), Some(0));
    assert_eq!(workspace.value().get_modules()[0].get_input(1), Ok(None));
}

#[test]
fn inputs_read_the_buffers_they_are_connected_to() {
    let mut chain = chain();
    let at = chain.workspace.get_modules().iter().position(|m| m.id() == chain.osc).unwrap();
    match chain.workspace.module_mut(at) {
        SynthModuleType::OscillatorModule(m) => {
            m.calc(&AudioBuffer::new(None), &AudioBuffer::new(None), &|_, _| (1, 2, 3, 0))
        }
        _ => panic!("not an oscillator"),
    }
    let modules = chain.workspace.get_modules();
    let vca = find(&chain.workspace, chain.vca);
    let read = resolve_input(vca, 0, modules).unwrap();
    assert_eq!(read.get(), Some(&vec![1; 1024]));
    assert!(resolve_input(vca, 2, modules).is_err());
    let osc = find(&chain.workspace, chain.osc);
    assert!(resolve_input(osc, 0, modules).unwrap().is_empty());
    // a connection to a port that is not there, or to a module that is not
    let mut loose = VCAModule::new(&config());
    loose.set_input(0, chain.osc, 3).unwrap();
    loose.set_input(1, 99, 0).unwrap();
    assert!(resolve_input(&loose, 0, modules).is_err());
    assert!(resolve_input(&loose, 1, modules).unwrap().is_empty());
}

#[test]
fn a_plan_is_dirty_if_one_of_its_modules_is() {
    let mut chain = chain();
    let plan = chain.workspace.get_plan().clone();
    assert!(!ui_dirty(chain.workspace.get_modules(), &plan));
    let at = chain.workspace.get_modules().iter().position(|m| m.id() == chain.adsr).unwrap();
    match chain.workspace.module_mut(at) {
        SynthModuleType::ADSRModule(m) => m.envelope_mut().ui_dirty = true,
        _ => panic!("not an envelope"),
    }
    assert!(ui_dirty(chain.workspace.get_modules(), &plan));
    assert!(!ui_dirty(chain.workspace.get_modules(), &vec![]));
    assert!(!ui_dirty(chain.workspace.get_modules(), &vec![99]));
    let others: Vec<usize> = plan.iter().copied().filter(|k| *k != at).collect();
    assert!(!ui_dirty(chain.workspace.get_modules(), &others));
}
