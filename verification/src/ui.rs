//! The workspace: the modules of a patch, their wiring, and the plan they
//! are run by.

use vstd::prelude::*;

use crate::patch::can_be_made;
use crate::patch::configured;
use crate::patch::ends_at;
use crate::patch::found_by;
use crate::patch::kept_slot;
use crate::patch::lemma_first_wire;
use crate::patch::lemma_wires;
use crate::patch::placed;
use crate::patch::plugged;
use crate::patch::prepared;
use crate::patch::wire_to;
use crate::patch::wired;
use crate::patch::wires;
use crate::patch::FileFormat;
use crate::patch::Wire;
use crate::synth::AudioConfig;
use crate::synth::ControlVoltage;
use crate::synth::adsr::ADSRMode;
use crate::synth::catalog::SynthModuleType;
use crate::synth::compute::Kernels;
use crate::synth::compute::WaveState;
use crate::synth::filter::InternalMoogFilterState;
use crate::synth::filter::MoogFilterSettings;
use crate::synth::freeverb::FreeverbUpdate;
use crate::synth::graph::all_wf;
use crate::synth::graph::dependency_graph;
use crate::synth::graph::execute;
use crate::synth::graph::find_module;
use crate::synth::graph::idents;
use crate::synth::graph::keeps_patch;
use crate::synth::graph::plan_start;
use crate::synth::planner::loops_opened;
use crate::synth::graph::lemma_keeps_patch;
use crate::synth::graph::lemma_position;
use crate::synth::graph::plan_execution;
use crate::synth::graph::position;
use crate::synth::graph::reads_from;
use crate::synth::ident::ModuleId;
use crate::synth::math::MathOperation;
use crate::synth::module::unconnected;
use crate::synth::module::SynthModule;
use crate::synth::oscillator::OscillatorState;
use crate::synth::patchbay::Connection;
use crate::synth::planner::in_plan;
use crate::synth::planner::on_cycle;
use crate::synth::planner::planned;

verus! {

/// A handle at a port of a module, with the text it shows when pointed at.
#[derive(Debug)]
pub struct SynthModuleHandle {
    pub tooltip: Option<String>,
}

impl SynthModuleHandle {
    /// A handle with the given tooltip.
    pub fn new(tooltip: Option<String>) -> (handle: Self)
        ensures
            handle.tooltip == tooltip,
    {
        Self { tooltip }
    }
}

/// Where a module stands on the screen, as the bit patterns of its two
/// coordinates.
pub type Position = (ControlVoltage, ControlVoltage);

/// No identity occurs twice.
pub open spec fn distinct(ids: Seq<ModuleId>) -> bool {
    forall|i: int, j: int| 0 <= i < j < ids.len() ==> ids[i] != ids[j]
}

/// The slots with every connection to module `id` taken out.
pub open spec fn without_source(slots: Seq<Option<Connection>>, id: ModuleId) -> Seq<
    Option<Connection>,
> {
    Seq::new(
        slots.len(),
        |i: int|
            match slots[i] {
                Some((src, port)) => if src == id {
                    None
                } else {
                    Some((src, port))
                },
                None => None,
            },
    )
}

/// The slots with every connection to output `port` of module `id` taken
/// out.
pub open spec fn without_port(slots: Seq<Option<Connection>>, id: ModuleId, port: u8) -> Seq<
    Option<Connection>,
> {
    Seq::new(
        slots.len(),
        |i: int|
            if slots[i] == Some((id, port)) {
                None
            } else {
                slots[i]
            },
    )
}

/// Module `after` is module `before` with other connections: same
/// identity, same buffers, same settings.
pub open spec fn rewired(before: SynthModuleType, after: SynthModuleType) -> bool {
    &&& after.bay().ident() == before.bay().ident()
    &&& after.bay().outputs() == before.bay().outputs()
    &&& after.same_settings(&before)
    &&& before.wf() ==> after.wf()
}

/// Empties every slot of `module` that reads from module `id`.
pub fn disconnect_source(module: &mut SynthModuleType, id: ModuleId)
    requires
        old(module).wf(),
    ensures
        rewired(*old(module), *final(module)),
        final(module).bay().inputs() == without_source(old(module).bay().inputs(), id),
{
    let count = module.get_num_inputs();
    let ghost before = *module;
    proof {
        before.lemma_settings(&before);
    }
    let mut idx: u8 = 0;
    while idx < count
        invariant
            idx <= count,
            count == before.bay().inputs().len(),
            before.wf(),
            rewired(before, *module),
            module.bay().inputs().len() == count,
            forall|i: int|
                0 <= i < idx ==> (#[trigger] module.bay().inputs()[i]) == without_source(
                    before.bay().inputs(),
                    id,
                )[i],
            forall|i: int|
                idx <= i < count ==> (#[trigger] module.bay().inputs()[i]) == before.bay().inputs()[i],
        decreases count - idx,
    {
        let ghost held = *module;
        match module.get_input(idx) {
            Ok(Some((src, _))) => {
                if src == id {
                    let _ = module.disconnect_input(idx);
                    proof {
                        module.lemma_settings_chain(&held, &before);
                    }
                }
            },
            _ => {},
        }
        idx += 1;
    }
    assert(module.bay().inputs() =~= without_source(before.bay().inputs(), id));
}

/// Empties every slot of `module` that reads from output `port` of module
/// `id`. Returns whether there was one.
pub fn disconnect_port(module: &mut SynthModuleType, id: ModuleId, port: u8) -> (found: bool)
    requires
        old(module).wf(),
    ensures
        rewired(*old(module), *final(module)),
        final(module).bay().inputs() == without_port(old(module).bay().inputs(), id, port),
        found == old(module).bay().inputs().contains(Some((id, port))),
{
    let count = module.get_num_inputs();
    let ghost before = *module;
    proof {
        before.lemma_settings(&before);
    }
    let mut found = false;
    let mut idx: u8 = 0;
    while idx < count
        invariant
            idx <= count,
            count == before.bay().inputs().len(),
            before.wf(),
            rewired(before, *module),
            module.bay().inputs().len() == count,
            found == before.bay().inputs().subrange(0, idx as int).contains(Some((id, port))),
            forall|i: int|
                0 <= i < idx ==> (#[trigger] module.bay().inputs()[i]) == without_port(
                    before.bay().inputs(),
                    id,
                    port,
                )[i],
            forall|i: int|
                idx <= i < count ==> (#[trigger] module.bay().inputs()[i]) == before.bay().inputs()[i],
        decreases count - idx,
    {
        let ghost held = *module;
        let ghost front = before.bay().inputs().subrange(0, idx as int);
        let ghost next = before.bay().inputs().subrange(0, idx + 1);
        proof {
            assert(next.drop_last() =~= front);
            if front.contains(Some((id, port))) {
                let w = choose|w: int| 0 <= w < front.len() && front[w] == Some((id, port));
                assert(next[w] == Some((id, port)));
            }
            if next.contains(Some((id, port))) && next.last() != Some((id, port)) {
                let w = choose|w: int| 0 <= w < next.len() && next[w] == Some((id, port));
                assert(front[w] == Some((id, port)));
            }
        }
        match module.get_input(idx) {
            Ok(Some((src, src_port))) => {
                if src == id && src_port == port {
                    let _ = module.disconnect_input(idx);
                    found = true;
                    proof {
                        module.lemma_settings_chain(&held, &before);
                        assert(next[idx as int] == Some((id, port)));
                    }
                }
            },
            _ => {},
        }
        idx += 1;
    }
    assert(module.bay().inputs() =~= without_port(before.bay().inputs(), id, port));
    assert(before.bay().inputs().subrange(0, count as int) =~= before.bay().inputs());
    found
}


/// The place of the first output module of a list, if it holds one.
pub open spec fn first_output(modules: Seq<SynthModuleType>) -> Option<int> {
    if exists|i: int| 0 <= i < modules.len() && modules[i] is OutputModule {
        Some(
            choose|i: int|
                0 <= i < modules.len() && modules[i] is OutputModule && forall|j: int|
                    0 <= j < i ==> !(modules[j] is OutputModule),
        )
    } else {
        None
    }
}

/// `i` is the place of the first output module of the list.
pub open spec fn first_output_at(modules: Seq<SynthModuleType>, i: int) -> bool {
    &&& 0 <= i < modules.len()
    &&& modules[i] is OutputModule
    &&& forall|j: int| 0 <= j < i ==> !(modules[j] is OutputModule)
}

proof fn lemma_first_output_exists(modules: Seq<SynthModuleType>, w: int)
    requires
        0 <= w < modules.len(),
        modules[w] is OutputModule,
    ensures
        exists|i: int| first_output_at(modules, i),
    decreases w,
{
    if exists|j: int| 0 <= j < w && modules[j] is OutputModule {
        let j = choose|j: int| 0 <= j < w && modules[j] is OutputModule;
        lemma_first_output_exists(modules, j);
    } else {
        assert(first_output_at(modules, w));
    }
}

/// `first_output` gives the first place of an output module, and nothing
/// for a list without one.
pub proof fn lemma_first_output(modules: Seq<SynthModuleType>)
    ensures
        match first_output(modules) {
            Some(i) => first_output_at(modules, i),
            None => forall|i: int| 0 <= i < modules.len() ==> !(modules[i] is OutputModule),
        },
        forall|i: int| first_output_at(modules, i) ==> first_output(modules) == Some(i),
{
    if exists|i: int| 0 <= i < modules.len() && modules[i] is OutputModule {
        let w = choose|i: int| 0 <= i < modules.len() && modules[i] is OutputModule;
        lemma_first_output_exists(modules, w);
        let f = choose|i: int| first_output_at(modules, i);
        let p = first_output(modules)->0;
        assert(first_output_at(modules, p));
        assert forall|i: int| first_output_at(modules, i) implies first_output(modules) == Some(
            i,
        ) by {
            if i < p {
                assert(!(modules[i] is OutputModule));
            }
            if p < i {
                assert(!(modules[p] is OutputModule));
            }
        }
    }
}

/// The list `after` is the list `before` with the slots of the module at
/// place `s` replaced by `slots`, and nothing else changed.
pub open spec fn rewired_at(
    before: Seq<SynthModuleType>,
    after: Seq<SynthModuleType>,
    s: int,
    slots: Seq<Option<Connection>>,
) -> bool {
    &&& after.len() == before.len()
    &&& 0 <= s < before.len()
    &&& forall|j: int| 0 <= j < before.len() && j != s ==> after[j] == before[j]
    &&& rewired(before[s], after[s])
    &&& after[s].bay().inputs() == slots
}

/// A connection from output `src_port` of module `src` to input
/// `sink_port` of module `sink` can be made: both modules are in the list
/// and have these ports.
pub open spec fn connectable(
    modules: Seq<SynthModuleType>,
    sink: ModuleId,
    sink_port: u8,
    src: ModuleId,
    src_port: u8,
) -> bool {
    &&& position(idents(modules), sink) matches Some(s)
    &&& sink_port < modules[s].bay().inputs().len()
    &&& position(idents(modules), src) matches Some(u)
    &&& src_port < modules[u].bay().outputs().len()
}

/// The list `after` is the list `before` without the module `id`, and
/// without any connection to it.
pub open spec fn swept(before: Seq<SynthModuleType>, after: Seq<SynthModuleType>, id: ModuleId) -> bool {
    match position(idents(before), id) {
        Some(k) => {
            &&& after.len() == before.len() - 1
            &&& forall|j: int|
                0 <= j < after.len() ==> {
                    let from = if j < k {
                        j
                    } else {
                        j + 1
                    };
                    &&& rewired(before[from], #[trigger] after[j])
                    &&& after[j].bay().inputs() == without_source(before[from].bay().inputs(), id)
                }
        },
        None => {
            &&& after.len() == before.len()
            &&& forall|j: int|
                0 <= j < after.len() ==> {
                    &&& rewired(before[j], #[trigger] after[j])
                    &&& after[j].bay().inputs() == without_source(before[j].bay().inputs(), id)
                }
        },
    }
}

/// The list `after` is the list `before` without any connection to output
/// `port` of module `id`.
pub open spec fn unplugged(
    before: Seq<SynthModuleType>,
    after: Seq<SynthModuleType>,
    id: ModuleId,
    port: u8,
) -> bool {
    &&& after.len() == before.len()
    &&& forall|j: int|
        0 <= j < after.len() ==> {
            &&& rewired(before[j], #[trigger] after[j])
            &&& after[j].bay().inputs() == without_port(before[j].bay().inputs(), id, port)
        }
}

/// The list `after` is the list `before` with no input connected.
pub open spec fn silenced(before: Seq<SynthModuleType>, after: Seq<SynthModuleType>) -> bool {
    &&& after.len() == before.len()
    &&& forall|j: int|
        0 <= j < after.len() ==> {
            &&& rewired(before[j], #[trigger] after[j])
            &&& after[j].bay().inputs() == unconnected(before[j].bay().inputs().len())
        }
}

/// The file holds the patch made of `modules`: a copy of each module with
/// no input connected, in their order; their connections; and the screen
/// positions that `get_pos` found.
pub open spec fn captured<F: Fn(ModuleId) -> Result<Position, ()>>(
    modules: Seq<SynthModuleType>,
    file: FileFormat,
    get_pos: F,
) -> bool {
    &&& file.modules@.len() == modules.len()
    &&& forall|j: int| 0 <= j < modules.len() ==> prepared(modules[j], #[trigger] file.modules@[j])
    &&& file.connections@ == wires(modules)
    &&& exists|found: Seq<Result<Position, ()>>| #[trigger]
        found_by(idents(modules), found, get_pos) && file.positions@ == placed(
            idents(modules),
            found,
        )
}

/// The list `staged` holds the modules of a file, the last first, each
/// given the audio configuration.
pub open spec fn staged_from(
    file_modules: Seq<SynthModuleType>,
    staged: Seq<SynthModuleType>,
    audio_config: AudioConfig,
) -> bool {
    &&& staged.len() == file_modules.len()
    &&& forall|j: int|
        0 <= j < staged.len() ==> configured(
            file_modules[file_modules.len() - 1 - j],
            #[trigger] staged[j],
            audio_config,
        )
}

/// The list `after` holds the patch of a file: its modules, the last
/// first, each given the audio configuration, with the connections of the
/// file made among them.
pub open spec fn restored(
    file_modules: Seq<SynthModuleType>,
    file_connections: Seq<Wire>,
    audio_config: AudioConfig,
    after: Seq<SynthModuleType>,
) -> bool {
    exists|staged: Seq<SynthModuleType>| #[trigger]
        staged_from(file_modules, staged, audio_config) && wired(file_connections, staged, after)
}

/// The count of loads after one more: it starts over after 65535.
pub open spec fn next_load(loads: u16) -> u16 {
    if loads == u16::MAX {
        0
    } else {
        (loads + 1) as u16
    }
}

/// Whether no identity occurs twice among the modules.
pub fn ids_distinct(modules: &Vec<SynthModuleType>) -> (yes: bool)
    ensures
        yes == distinct(idents(modules@)),
{
    let ghost ids = idents(modules@);
    let mut j: usize = 0;
    while j < modules.len()
        invariant
            j <= modules.len(),
            ids == idents(modules@),
            forall|a: int, b: int| 0 <= a < b < j ==> ids[a] != ids[b],
        decreases modules.len() - j,
    {
        let id = modules[j].id();
        let mut i: usize = 0;
        while i < j
            invariant
                i <= j,
                j < modules.len(),
                ids == idents(modules@),
                id == ids[j as int],
                forall|a: int| 0 <= a < i ==> ids[a] != id,
            decreases j - i,
        {
            if modules[i].id() == id {
                assert(ids[i as int] == ids[j as int]);
                return false;
            }
            i += 1;
        }
        j += 1;
    }
    true
}

/// The modules of a patch, where they stand on the screen, the plan they
/// are run by and the output module the plan was made for.
#[derive(Debug)]
pub struct SynthModuleWorkspaceImpl {
    modules: Vec<SynthModuleType>,
    modules_pos: Vec<(ModuleId, Position)>,
    loads: u16,
    plan: Vec<usize>,
    output: Option<usize>,
    audio_config: Option<AudioConfig>,
}

impl SynthModuleWorkspaceImpl {
    /// The modules, in the order they were added.
    pub closed spec fn modules(&self) -> Seq<SynthModuleType> {
        self.modules@
    }

    /// The screen positions that were loaded, each with the identity of its
    /// module.
    pub closed spec fn positions(&self) -> Seq<(ModuleId, Position)> {
        self.modules_pos@
    }

    /// The number of patches loaded so far, counted in sixteen bits.
    pub closed spec fn loads(&self) -> u16 {
        self.loads
    }

    /// The plan: places of modules, in the order they are to be run.
    pub closed spec fn plan_of(&self) -> Seq<usize> {
        self.plan@
    }

    /// The place of the output module the plan was made for.
    pub closed spec fn output(&self) -> Option<usize> {
        self.output
    }

    /// The audio configuration, once it is known.
    pub closed spec fn config(&self) -> Option<AudioConfig> {
        self.audio_config
    }

    /// The workspace is valid: its modules are valid and have identities
    /// of their own, the plan names only places of modules, and the output
    /// is an output module.
    pub open spec fn wf(&self) -> bool {
        &&& all_wf(self.modules())
        &&& distinct(idents(self.modules()))
        &&& forall|k: int|
            0 <= k < self.plan_of().len() ==> (#[trigger] self.plan_of()[k]) < self.modules().len()
        &&& self.output() matches Some(o) ==> o < self.modules().len() && self.modules()[o as int] is OutputModule
    }

    /// The plan is a plan for the patch as it is wired now: it holds every
    /// module once, in an order in which a module comes after each module
    /// it reads from, except through connections on a feedback loop, and
    /// it was made for the first output module. Without an output module
    /// the plan is empty.
    pub open spec fn is_planned(&self) -> bool {
        match first_output(self.modules()) {
            Some(o) => {
                &&& self.output() == Some(o as usize)
                &&& planned(
                    dependency_graph(self.modules()),
                    loops_opened(
                        dependency_graph(self.modules()),
                        plan_start(self.modules(), self.modules()[o].bay().ident()),
                    ),
                    self.plan_of(),
                )
                &&& self.plan_of().len() == self.modules().len()
                &&& forall|i: int, j: int|
                    0 <= i < j < self.plan_of().len() ==> self.plan_of()[i] != self.plan_of()[j]
                &&& forall|x: int| 0 <= x < self.modules().len() ==> #[trigger] in_plan(self.plan_of(), x)
                &&& forall|i: int, j: int|
                    0 <= i < self.plan_of().len() && 0 <= j < self.plan_of().len() && reads_from(
                        self.modules(),
                        #[trigger] self.plan_of()[j] as int,
                        #[trigger] self.plan_of()[i] as int,
                    ) && !on_cycle(
                        dependency_graph(self.modules()),
                        self.plan_of()[j] as int,
                        self.plan_of()[i] as int,
                    ) ==> i < j
            },
            None => self.output() is None && self.plan_of().len() == 0,
        }
    }

    /// An empty workspace.
    pub fn new() -> (workspace: Self)
        ensures
            workspace.wf(),
            workspace.modules().len() == 0,
            workspace.positions().len() == 0,
            workspace.loads() == 0,
            workspace.plan_of().len() == 0,
            workspace.output() is None,
            workspace.config() is None,
    {
        SynthModuleWorkspaceImpl {
            modules: Vec::new(),
            modules_pos: Vec::new(),
            loads: 0,
            plan: Vec::new(),
            output: None,
            audio_config: None,
        }
    }

    /// The modules.
    pub fn get_modules(&self) -> (modules: &Vec<SynthModuleType>)
        ensures
            modules@ == self.modules(),
    {
        &self.modules
    }

    /// The plan.
    pub fn get_plan(&self) -> (plan: &Vec<usize>)
        ensures
            plan@ == self.plan_of(),
    {
        &self.plan
    }

    /// The place of the output module the plan was made for.
    pub fn get_output(&self) -> (output: Option<usize>)
        ensures
            output == self.output(),
    {
        self.output
    }

    /// The audio configuration, once it is known.
    pub fn get_audio_config(&self) -> (config: Option<AudioConfig>)
        ensures
            config == self.config(),
    {
        self.audio_config
    }

    /// The number of patches loaded so far.
    pub fn get_loads(&self) -> (loads: u16)
        ensures
            loads == self.loads(),
    {
        self.loads
    }

    /// Sets the audio configuration that modules made or loaded from now on
    /// are given.
    pub fn set_audio_config(&mut self, audio_config: AudioConfig)
        ensures
            final(self).config() == Some(audio_config),
            final(self).modules() == old(self).modules(),
            final(self).positions() == old(self).positions(),
            final(self).loads() == old(self).loads(),
            final(self).plan_of() == old(self).plan_of(),
            final(self).output() == old(self).output(),
    {
        self.audio_config = Some(audio_config);
    }

    /// The place of the first output module.
    pub fn find_output(&self) -> (found: Result<usize, ()>)
        ensures
            match found {
                Ok(o) => first_output(self.modules()) == Some(o as int) && o < self.modules().len()
                    && self.modules()[o as int] is OutputModule,
                Err(_) => first_output(self.modules()) is None,
            },
    {
        let mut i: usize = 0;
        while i < self.modules.len()
            invariant
                i <= self.modules.len(),
                forall|j: int| 0 <= j < i ==> !(self.modules[j] is OutputModule),
            decreases self.modules.len() - i,
        {
            let is_output = match &self.modules[i] {
                SynthModuleType::OutputModule(_) => true,
                _ => false,
            };
            if is_output {
                proof {
                    assert(first_output_at(self.modules@, i as int));
                    lemma_first_output(self.modules@);
                }
                return Ok(i);
            }
            i += 1;
        }
        proof {
            lemma_first_output(self.modules@);
        }
        Err(())
    }

    /// Makes the plan anew for the patch as it is wired now.
    pub fn plan(&mut self)
        requires
            all_wf(old(self).modules()),
        ensures
            final(self).is_planned(),
            final(self).modules() == old(self).modules(),
            final(self).positions() == old(self).positions(),
            final(self).loads() == old(self).loads(),
            final(self).config() == old(self).config(),
            distinct(idents(old(self).modules())) ==> final(self).wf(),
    {
        match self.find_output() {
            Ok(o) => {
                let id = self.modules[o].id();
                plan_execution(id, &self.modules, &mut self.plan);
                self.output = Some(o);
                proof {
                    lemma_first_output(self.modules@);
                }
            },
            Err(_) => {
                self.plan.clear();
                self.output = None;
            },
        }
    }

    /// Adds a module at the end of the list and makes the plan anew. An
    /// error, and no change, if the workspace holds a module with the same
    /// identity.
    pub fn add_module(&mut self, module: SynthModuleType) -> (done: Result<(), ()>)
        requires
            old(self).wf(),
            module.wf(),
        ensures
            final(self).wf(),
            done is Ok <==> position(idents(old(self).modules()), module.bay().ident()) is None,
            final(self).modules() == if done is Ok {
                old(self).modules().push(module)
            } else {
                old(self).modules()
            },
            done is Ok ==> final(self).is_planned(),
            done is Err ==> final(self).plan_of() == old(self).plan_of() && final(self).output()
                == old(self).output(),
            final(self).positions() == old(self).positions(),
            final(self).loads() == old(self).loads(),
            final(self).config() == old(self).config(),
    {
        match find_module(&self.modules, module.id()) {
            Some(_) => Err(()),
            None => {
                let ghost before = self.modules@;
                proof {
                    lemma_position(idents(before), module.bay().ident());
                }
                self.modules.push(module);
                proof {
                    let after = self.modules@;
                    assert forall|i: int, j: int| 0 <= i < j < after.len() implies idents(
                        after,
                    )[i] != idents(after)[j] by {
                        if j < before.len() {
                            assert(idents(before)[i] != idents(before)[j]);
                        } else {
                            assert(idents(before)[i] != module.bay().ident());
                        }
                    }
                    assert forall|i: int| 0 <= i < after.len() implies (#[trigger] after[i]).wf() by {
                        if i < before.len() {
                            assert(before[i].wf());
                        }
                    }
                    assert(distinct(idents(after)));
                }
                self.plan();
                Ok(())
            },
        }
    }

    /// The module at place `index`, to be run or set. The caller keeps
    /// the module valid and leaves its identity as it is.
    pub fn module_mut(&mut self, index: usize) -> (module: &mut SynthModuleType)
        requires
            index < old(self).modules().len(),
        ensures
            *module == old(self).modules()[index as int],
            final(self).modules() == old(self).modules().update(index as int, *final(module)),
            final(self).positions() == old(self).positions(),
            final(self).loads() == old(self).loads(),
            final(self).plan_of() == old(self).plan_of(),
            final(self).output() == old(self).output(),
            final(self).config() == old(self).config(),
    {
        &mut self.modules[index]
    }

    /// Connects input `sink_port` of module `sink` to output `src_port` of
    /// module `src`, in place of what the input was connected to, and
    /// makes the plan anew. An error, and no change, if one of the modules
    /// is not in the workspace or has no such port.
    pub fn connect(&mut self, sink: ModuleId, sink_port: u8, src: ModuleId, src_port: u8) -> (done:
        Result<(), ()>)
        requires
            old(self).wf(),
        ensures
            final(self).wf(),
            done is Ok <==> connectable(old(self).modules(), sink, sink_port, src, src_port),
            done is Ok ==> final(self).is_planned() && rewired_at(
                old(self).modules(),
                final(self).modules(),
                position(idents(old(self).modules()), sink)->0,
                old(self).modules()[position(
                    idents(old(self).modules()),
                    sink,
                )->0].bay().inputs().update(sink_port as int, Some((src, src_port))),
            ),
            done is Err ==> final(self).modules() == old(self).modules() && final(self).plan_of()
                == old(self).plan_of() && final(self).output() == old(self).output(),
            final(self).positions() == old(self).positions(),
            final(self).loads() == old(self).loads(),
            final(self).config() == old(self).config(),
    {
        let ghost before = self.modules@;
        let at = match find_module(&self.modules, sink) {
            Some(at) => at,
            None => {
                return Err(());
            },
        };
        let from = match find_module(&self.modules, src) {
            Some(from) => from,
            None => {
                return Err(());
            },
        };
        assert(before[at as int].wf());
        assert(before[from as int].wf());
        if sink_port >= self.modules[at].get_num_inputs() || src_port
            >= self.modules[from].get_num_outputs() {
            return Err(());
        }
        let _ = self.modules[at].set_input(sink_port, src, src_port);
        proof {
            self.lemma_rewired_keeps_wf(before, at as int);
        }
        self.plan();
        Ok(())
    }

    /// Empties input `sink_port` of module `sink` and makes the plan anew.
    /// An error, and no change, if the module is not in the workspace or
    /// has no such input.
    pub fn disconnect_input(&mut self, sink: ModuleId, sink_port: u8) -> (done: Result<(), ()>)
        requires
            old(self).wf(),
        ensures
            final(self).wf(),
            done is Ok <==> (position(idents(old(self).modules()), sink) matches Some(s)
                && sink_port < old(self).modules()[s].bay().inputs().len()),
            done is Ok ==> final(self).is_planned() && rewired_at(
                old(self).modules(),
                final(self).modules(),
                position(idents(old(self).modules()), sink)->0,
                old(self).modules()[position(
                    idents(old(self).modules()),
                    sink,
                )->0].bay().inputs().update(sink_port as int, None),
            ),
            done is Err ==> final(self).modules() == old(self).modules() && final(self).plan_of()
                == old(self).plan_of() && final(self).output() == old(self).output(),
            final(self).positions() == old(self).positions(),
            final(self).loads() == old(self).loads(),
            final(self).config() == old(self).config(),
    {
        let ghost before = self.modules@;
        let at = match find_module(&self.modules, sink) {
            Some(at) => at,
            None => {
                return Err(());
            },
        };
        assert(before[at as int].wf());
        if sink_port >= self.modules[at].get_num_inputs() {
            return Err(());
        }
        let _ = self.modules[at].disconnect_input(sink_port);
        proof {
            self.lemma_rewired_keeps_wf(before, at as int);
        }
        self.plan();
        Ok(())
    }

    /// Where one module of a valid list has been rewired, the list is
    /// still valid and its identities are as they were.
    proof fn lemma_rewired_keeps_wf(&self, before: Seq<SynthModuleType>, s: int)
        requires
            all_wf(before),
            distinct(idents(before)),
            rewired_at(before, self.modules(), s, self.modules()[s].bay().inputs()),
        ensures
            all_wf(self.modules()),
            idents(self.modules()) == idents(before),
            distinct(idents(self.modules())),
    {
        let after = self.modules();
        assert forall|i: int| 0 <= i < after.len() implies (#[trigger] after[i]).wf() by {
            assert(before[i].wf());
        }
        assert(idents(after) =~= idents(before));
    }

    /// Takes out every connection to output `src_port` of module `src`,
    /// and makes the plan anew if there was one. Returns whether there was
    /// one.
    pub fn disconnect_output(&mut self, src: ModuleId, src_port: u8) -> (found: bool)
        requires
            old(self).wf(),
        ensures
            final(self).wf(),
            unplugged(old(self).modules(), final(self).modules(), src, src_port),
            found == exists|j: int|
                0 <= j < old(self).modules().len() && (#[trigger] old(self).modules()[j]).bay().inputs().contains(Some((src, src_port))),
            found ==> final(self).is_planned(),
            !found ==> final(self).plan_of() == old(self).plan_of() && final(self).output() == old(self).output(),
            final(self).positions() == old(self).positions(),
            final(self).loads() == old(self).loads(),
            final(self).config() == old(self).config(),
    {
        let ghost before = self.modules@;
        let mut found = false;
        let mut i: usize = 0;
        while i < self.modules.len()
            invariant
                i <= self.modules.len(),
                self.modules.len() == before.len(),
                all_wf(before),
                self.modules_pos == old(self).modules_pos,
                self.loads == old(self).loads,
                self.plan == old(self).plan,
                self.output == old(self).output,
                self.audio_config == old(self).audio_config,
                found == exists|j: int|
                    0 <= j < i && (#[trigger] before[j]).bay().inputs().contains(
                        Some((src, src_port)),
                    ),
                forall|j: int|
                    0 <= j < i ==> {
                        &&& rewired(before[j], #[trigger] self.modules[j])
                        &&& self.modules[j].bay().inputs() == without_port(
                            before[j].bay().inputs(),
                            src,
                            src_port,
                        )
                    },
                forall|j: int| i <= j < before.len() ==> self.modules[j] == before[j],
            decreases self.modules.len() - i,
        {
            assert(before[i as int].wf());
            if disconnect_port(&mut self.modules[i], src, src_port) {
                found = true;
            }
            i += 1;
        }
        proof {
            self.lemma_all_rewired_keeps_wf(before);
            assert(forall|k: int|
                0 <= k < self.plan@.len() ==> old(self).plan_of()[k] < before.len());
        }
        if found {
            self.plan();
        }
        found
    }

    /// Where the modules of a valid list have been rewired, the list is
    /// still valid and its identities are as they were.
    proof fn lemma_all_rewired_keeps_wf(&self, before: Seq<SynthModuleType>)
        requires
            all_wf(before),
            distinct(idents(before)),
            self.modules().len() == before.len(),
            forall|j: int| 0 <= j < before.len() ==> rewired(before[j], #[trigger] self.modules()[j]),
        ensures
            all_wf(self.modules()),
            idents(self.modules()) == idents(before),
            distinct(idents(self.modules())),
            forall|j: int|
                0 <= j < before.len() ==> (before[j] is OutputModule <==> self.modules()[j] is OutputModule),
    {
        let after = self.modules();
        assert forall|i: int| 0 <= i < after.len() implies (#[trigger] after[i]).wf() by {
            assert(before[i].wf());
            assert(rewired(before[i], after[i]));
        }
        assert forall|i: int| 0 <= i < after.len() implies idents(after)[i] == idents(before)[i] by {
            assert(rewired(before[i], after[i]));
        }
        assert(idents(after) =~= idents(before));
        assert forall|j: int| 0 <= j < before.len() implies (before[j] is OutputModule
            <==> self.modules()[j] is OutputModule) by {
            assert(rewired(before[j], after[j]));
        }
    }

    /// Deletes module `id`: takes out every connection to it, takes the
    /// module out of the list, and makes the plan anew. Where the
    /// workspace holds no such module, only the plan is made anew.
    pub fn delete_module(&mut self, id: ModuleId)
        requires
            old(self).wf(),
        ensures
            final(self).wf(),
            final(self).is_planned(),
            swept(old(self).modules(), final(self).modules(), id),
            forall|j: int|
                0 <= j < final(self).modules().len() ==> (#[trigger] final(self).modules()[j]).bay().ident() != id,
            final(self).positions() == old(self).positions(),
            final(self).loads() == old(self).loads(),
            final(self).config() == old(self).config(),
    {
        let ghost before = self.modules@;
        let mut i: usize = 0;
        while i < self.modules.len()
            invariant
                i <= self.modules.len(),
                self.modules.len() == before.len(),
                all_wf(before),
                self.modules_pos == old(self).modules_pos,
                self.loads == old(self).loads,
                self.audio_config == old(self).audio_config,
                forall|j: int|
                    0 <= j < i ==> {
                        &&& rewired(before[j], #[trigger] self.modules[j])
                        &&& self.modules[j].bay().inputs() == without_source(
                            before[j].bay().inputs(),
                            id,
                        )
                    },
                forall|j: int| i <= j < before.len() ==> self.modules[j] == before[j],
            decreases self.modules.len() - i,
        {
            assert(before[i as int].wf());
            disconnect_source(&mut self.modules[i], id);
            i += 1;
        }
        let ghost cleared = self.modules@;
        proof {
            self.lemma_all_rewired_keeps_wf(before);
            lemma_position(idents(before), id);
        }
        match find_module(&self.modules, id) {
            Some(at) => {
                let _ = self.modules.remove(at);
                proof {
                    let after = self.modules@;
                    assert(after =~= cleared.remove(at as int));
                    assert forall|j: int| 0 <= j < after.len() implies (#[trigger] after[j]).wf() by {
                        if j < at {
                            assert(after[j] == cleared[j]);
                        } else {
                            assert(after[j] == cleared[j + 1]);
                        }
                    }
                    assert forall|a: int, b: int| 0 <= a < b < after.len() implies idents(
                        after,
                    )[a] != idents(after)[b] by {
                        let fa = if a < at {
                            a
                        } else {
                            a + 1
                        };
                        let fb = if b < at {
                            b
                        } else {
                            b + 1
                        };
                        assert(after[a] == cleared[fa]);
                        assert(after[b] == cleared[fb]);
                        assert(idents(cleared)[fa] != idents(cleared)[fb]);
                    }
                    assert forall|j: int| 0 <= j < after.len() implies (#[trigger] after[j]).bay().ident()
                        != id by {
                        let from = if j < at {
                            j
                        } else {
                            j + 1
                        };
                        assert(after[j] == cleared[from]);
                        assert(idents(cleared)[from] != idents(cleared)[at as int]);
                    }
                    assert forall|j: int| 0 <= j < after.len() implies {
                        let from = if j < at {
                            j
                        } else {
                            j + 1
                        };
                        &&& rewired(before[from], #[trigger] after[j])
                        &&& after[j].bay().inputs() == without_source(
                            before[from].bay().inputs(),
                            id,
                        )
                    } by {
                        let from = if j < at {
                            j
                        } else {
                            j + 1
                        };
                        assert(after[j] == cleared[from]);
                    }
                }
            },
            None => {
                proof {
                    assert forall|j: int| 0 <= j < cleared.len() implies (#[trigger] cleared[j]).bay().ident()
                        != id by {
                        assert(idents(cleared)[j] != id);
                    }
                }
            },
        }
        self.plan();
    }

    /// Computes one block: runs the modules in the order of the plan, as
    /// `execute` does. The patch stays wired and planned as it is.
    pub fn execute<
        V: Fn(OscillatorState, Option<ControlVoltage>) -> (ControlVoltage, ControlVoltage, ControlVoltage, u64),
        D: Fn() -> ControlVoltage,
        P: Fn(u16, u16) -> ControlVoltage,
        A: Fn(ControlVoltage, u32, ControlVoltage) -> ControlVoltage,
        S: Fn(ADSRMode, ControlVoltage, ControlVoltage, ControlVoltage) -> ControlVoltage,
        M: Fn(ControlVoltage, ControlVoltage) -> ControlVoltage,
        L: Fn(MoogFilterSettings, ControlVoltage, ControlVoltage) -> (InternalMoogFilterState, ControlVoltage, ControlVoltage, ControlVoltage),
        X: Fn(ControlVoltage, ControlVoltage, ControlVoltage) -> ControlVoltage,
        Y: Fn(MathOperation, ControlVoltage, ControlVoltage) -> ControlVoltage,
        W: Fn(ModuleId) -> WaveState,
        Q: Fn(ControlVoltage) -> usize,
        R: Fn(ControlVoltage, u32, u32, ControlVoltage) -> ControlVoltage,
        T: Fn(ControlVoltage, ControlVoltage) -> (ControlVoltage, ControlVoltage),
        B: Fn(ModuleId, FreeverbUpdate) -> T,
    >(&mut self, kernels: &Kernels<V, D, P, A, S, M, L, X, Y, W, Q, R, B>)
        requires
            old(self).wf(),
            kernels.total(),
        ensures
            final(self).wf(),
            final(self).same_patch(*old(self)),
            kernels.runs(old(self).modules(), old(self).plan_of(), final(self).modules()),
            old(self).is_planned() ==> final(self).is_planned(),
    {
        let ghost before = self.modules@;
        execute(&mut self.modules, &self.plan, kernels);
        proof {
            let after = self.modules@;
            kernels.lemma_runs(before, self.plan@, after);
            assert forall|k: int| 0 <= k < self.plan@.len() implies (#[trigger] self.plan@[k])
                < after.len() by {
                assert(old(self).plan_of()[k] < before.len());
            }
            if self.output is Some {
                let o = self.output->0 as int;
                assert(after[o].same_kind(&before[o]));
            }
            lemma_planned_kept(*old(self), *self);
        }
    }

    /// The workspace has the plan, the output, the screen positions, the
    /// count of loads and the audio configuration of `before`.
    pub open spec fn same_patch(&self, before: SynthModuleWorkspaceImpl) -> bool {
        &&& self.plan_of() == before.plan_of()
        &&& self.output() == before.output()
        &&& self.positions() == before.positions()
        &&& self.loads() == before.loads()
        &&& self.config() == before.config()
    }

    /// The screen position that was loaded for module `id`, if there was
    /// one.
    pub fn get_position(&self, id: ModuleId) -> (at: Option<Position>)
        ensures
            match at {
                Some(pos) => exists|k: int|
                    0 <= k < self.positions().len() && #[trigger] self.positions()[k] == (id, pos)
                        && forall|j: int| 0 <= j < k ==> self.positions()[j].0 != id,
                None => forall|k: int|
                    0 <= k < self.positions().len() ==> (#[trigger] self.positions()[k]).0 != id,
            },
    {
        let mut k: usize = 0;
        while k < self.modules_pos.len()
            invariant
                k <= self.modules_pos.len(),
                forall|j: int| 0 <= j < k ==> (#[trigger] self.modules_pos[j]).0 != id,
            decreases self.modules_pos.len() - k,
        {
            let (owner, pos) = self.modules_pos[k];
            if owner == id {
                proof {
                    assert(self.positions()[k as int] == (id, pos));
                    assert(forall|j: int| 0 <= j < k ==> self.positions()[j].0 != id);
                }
                return Some(pos);
            }
            k += 1;
        }
        None
    }

    /// The patch as a file holds it; `get_pos` finds where a module stands
    /// on the screen.
    pub fn serialize<F: Fn(ModuleId) -> Result<Position, ()>>(&self, get_pos: F) -> (file:
        FileFormat)
        requires
            all_wf(self.modules()),
            forall|id: ModuleId| call_requires(get_pos, (id,)),
        ensures
            captured(self.modules(), file, get_pos),
    {
        let mut container = FileFormat::new();
        container.capture_modules(&self.modules);
        container.capture_connections(&self.modules);
        container.capture_pos(&self.modules, get_pos);
        proof {
            assert(container.connections@ =~= wires(self.modules@));
            assert forall|j: int| 0 <= j < self.modules@.len() implies prepared(
                self.modules@[j],
                #[trigger] container.modules@[j],
            ) by {
                assert(container.modules@[0 + j] == container.modules@[j]);
            }
            let found = choose|found: Seq<Result<Position, ()>>| #[trigger]
                found_by(idents(self.modules@), found, get_pos) && container.positions@
                    == Seq::<(ModuleId, Position)>::empty() + placed(idents(self.modules@), found);
            assert(container.positions@ =~= placed(idents(self.modules@), found));
            assert(found_by(idents(self.modules@), found, get_pos) && container.positions@
                == placed(idents(self.modules@), found));
        }
        container
    }

    /// Loads a patch in place of the one the workspace holds; `decoded` is
    /// the file, or nothing if it could not be read.
    ///
    /// First every input of every module is disconnected and the loads are
    /// counted up. The load fails, and leaves the workspace at that, if
    /// the file could not be read, if no audio configuration is known yet,
    /// or if two modules of the file have one identity. Else the modules
    /// of the workspace make way for those of the file, the last first,
    /// each given the audio configuration; the connections of the file are
    /// made among them, but for those whose modules or ports are not
    /// there; the screen positions are those of the file; and the plan is
    /// made anew.
    pub fn deserialize(&mut self, decoded: Option<FileFormat>) -> (done: Result<(), ()>)
        requires
            old(self).wf(),
            decoded matches Some(file) ==> all_wf(file.modules@),
        ensures
            final(self).wf(),
            final(self).loads() == next_load(old(self).loads()),
            final(self).config() == old(self).config(),
            done is Ok <==> (decoded matches Some(file) && old(self).config() is Some && distinct(
                idents(file.modules@),
            )),
            done is Err ==> {
                &&& silenced(old(self).modules(), final(self).modules())
                &&& final(self).positions() == old(self).positions()
                &&& final(self).plan_of() == old(self).plan_of()
                &&& final(self).output() == old(self).output()
            },
            done is Ok ==> {
                &&& restored(
                    decoded->0.modules@,
                    decoded->0.connections@,
                    old(self).config()->0,
                    final(self).modules(),
                )
                &&& final(self).positions() == decoded->0.positions@
                &&& final(self).is_planned()
            },
    {
        let ghost before = self.modules@;
        let mut i: usize = 0;
        while i < self.modules.len()
            invariant
                i <= self.modules.len(),
                self.modules.len() == before.len(),
                all_wf(before),
                self.modules_pos == old(self).modules_pos,
                self.loads == old(self).loads,
                self.plan == old(self).plan,
                self.output == old(self).output,
                self.audio_config == old(self).audio_config,
                forall|j: int|
                    0 <= j < i ==> {
                        &&& rewired(before[j], #[trigger] self.modules[j])
                        &&& self.modules[j].bay().inputs() == unconnected(
                            before[j].bay().inputs().len(),
                        )
                    },
                forall|j: int| i <= j < before.len() ==> self.modules[j] == before[j],
            decreases self.modules.len() - i,
        {
            assert(before[i as int].wf());
            self.modules[i].disconnect_inputs();
            i += 1;
        }
        proof {
            self.lemma_all_rewired_keeps_wf(before);
            assert(forall|k: int|
                0 <= k < self.plan@.len() ==> old(self).plan_of()[k] < before.len());
        }
        self.loads = if self.loads == u16::MAX {
            0
        } else {
            self.loads + 1
        };
        let mut file = match decoded {
            Some(file) => file,
            None => {
                return Err(());
            },
        };
        let audio_config = match self.audio_config {
            Some(audio_config) => audio_config,
            None => {
                return Err(());
            },
        };
        if !ids_distinct(&file.modules) {
            return Err(());
        }
        let ghost file_modules = file.modules@;
        let ghost file_connections = file.connections@;
        self.modules.clear();
        self.modules_pos = file.unpack_pos();
        file.unpack_modules(&mut self.modules, &audio_config);
        let ghost staged = self.modules@;
        proof {
            assert forall|j: int| 0 <= j < staged.len() implies configured(
                file_modules[file_modules.len() - 1 - j],
                #[trigger] staged[j],
                audio_config,
            ) by {
                assert(staged[0 + j] == staged[j]);
            }
            assert(staged_from(file_modules, staged, audio_config));
            assert forall|j: int| 0 <= j < staged.len() implies (#[trigger] staged[j]).wf() by {
                assert(configured(file_modules[file_modules.len() - 1 - j], staged[j], audio_config));
            }
            assert forall|a: int, b: int| 0 <= a < b < staged.len() implies idents(staged)[a]
                != idents(staged)[b] by {
                let n = file_modules.len();
                assert(configured(file_modules[n - 1 - a], staged[a], audio_config));
                assert(configured(file_modules[n - 1 - b], staged[b], audio_config));
                assert(idents(file_modules)[n - 1 - b] != idents(file_modules)[n - 1 - a]);
            }
        }
        let _ = file.unpack_connections(&mut self.modules);
        self.plan();
        Ok(())
    }
}


/// A workspace as the program holds it.
#[derive(Debug)]
pub struct SynthModuleWorkspace(SynthModuleWorkspaceImpl);

impl SynthModuleWorkspace {
    /// The workspace inside.
    pub closed spec fn inner(&self) -> SynthModuleWorkspaceImpl {
        self.0
    }

    /// An empty workspace.
    pub fn new() -> (workspace: Self)
        ensures
            workspace.inner().wf(),
            workspace.inner().modules().len() == 0,
            workspace.inner().positions().len() == 0,
            workspace.inner().loads() == 0,
            workspace.inner().plan_of().len() == 0,
            workspace.inner().output() is None,
            workspace.inner().config() is None,
    {
        SynthModuleWorkspace(SynthModuleWorkspaceImpl::new())
    }

    /// The workspace inside.
    pub fn value(&self) -> (inner: &SynthModuleWorkspaceImpl)
        ensures
            *inner == self.inner(),
    {
        &self.0
    }

    /// The workspace inside, to be changed.
    pub fn value_mut(&mut self) -> (inner: &mut SynthModuleWorkspaceImpl)
        ensures
            *inner == old(self).inner(),
            final(self).inner() == *final(inner),
    {
        &mut self.0
    }

    /// Sets the audio configuration that modules made or loaded from now on
    /// are given.
    pub fn set_audio_config(&mut self, audio_config: AudioConfig)
        ensures
            final(self).inner().config() == Some(audio_config),
            final(self).inner().modules() == old(self).inner().modules(),
            final(self).inner().positions() == old(self).inner().positions(),
            final(self).inner().loads() == old(self).inner().loads(),
            final(self).inner().plan_of() == old(self).inner().plan_of(),
            final(self).inner().output() == old(self).inner().output(),
    {
        self.0.set_audio_config(audio_config);
    }

    /// Adds a module at the end of the list; the plan stays as it is. An
    /// error, and no change, if the workspace holds a module with the same
    /// identity.
    pub fn add_module(&mut self, module: SynthModuleType) -> (done: Result<(), ()>)
        requires
            old(self).inner().wf(),
            module.wf(),
        ensures
            final(self).inner().wf(),
            done is Ok <==> position(idents(old(self).inner().modules()), module.bay().ident())
                is None,
            final(self).inner().modules() == if done is Ok {
                old(self).inner().modules().push(module)
            } else {
                old(self).inner().modules()
            },
            done is Ok ==> final(self).inner().is_planned(),
            done is Err ==> final(self).inner().plan_of() == old(self).inner().plan_of(),
            done is Err ==> final(self).inner().output() == old(self).inner().output(),
            final(self).inner().positions() == old(self).inner().positions(),
            final(self).inner().loads() == old(self).inner().loads(),
            final(self).inner().config() == old(self).inner().config(),
    {
        self.0.add_module(module)
    }

    /// Deletes module `id`: takes out every connection to it, takes the
    /// module out of the list, and makes the plan anew.
    pub fn delete_module(&mut self, id: ModuleId)
        requires
            old(self).inner().wf(),
        ensures
            final(self).inner().wf(),
            final(self).inner().is_planned(),
            swept(old(self).inner().modules(), final(self).inner().modules(), id),
            forall|j: int|
                0 <= j < final(self).inner().modules().len() ==> (#[trigger] final(self).inner().modules()[j]).bay().ident() != id,
            final(self).inner().positions() == old(self).inner().positions(),
            final(self).inner().loads() == old(self).inner().loads(),
            final(self).inner().config() == old(self).inner().config(),
    {
        self.0.delete_module(id);
    }

    /// The place of the output module the plan was made for.
    pub fn get_output(&self) -> (output: Option<usize>)
        ensures
            output == self.inner().output(),
    {
        self.0.get_output()
    }

    /// The plan.
    pub fn get_plan(&self) -> (plan: &Vec<usize>)
        ensures
            plan@ == self.inner().plan_of(),
    {
        self.0.get_plan()
    }
}

/// The list `mirror` holds modules with the identities and the numbers of
/// ports of those of `modules`, in the opposite order.
spec fn mirrors(modules: Seq<SynthModuleType>, mirror: Seq<SynthModuleType>) -> bool {
    &&& mirror.len() == modules.len()
    &&& forall|j: int|
        0 <= j < modules.len() ==> {
            let other = #[trigger] mirror[modules.len() - 1 - j];
            &&& other.bay().ident() == modules[j].bay().ident()
            &&& other.bay().inputs().len() == modules[j].bay().inputs().len()
            &&& other.bay().outputs().len() == modules[j].bay().outputs().len()
        }
}

proof fn lemma_position_mirror(
    modules: Seq<SynthModuleType>,
    mirror: Seq<SynthModuleType>,
    id: ModuleId,
)
    requires
        distinct(idents(modules)),
        mirrors(modules, mirror),
    ensures
        match position(idents(modules), id) {
            Some(u) => 0 <= u < modules.len() && modules[u].bay().ident() == id && position(
                idents(mirror),
                id,
            ) == Some(modules.len() - 1 - u),
            None => position(idents(mirror), id) is None,
        },
{
    let n = modules.len() as int;
    lemma_position(idents(modules), id);
    lemma_position(idents(mirror), id);
    match position(idents(mirror), id) {
        Some(p) => {
            let back = n - 1 - p;
            assert(mirror[n - 1 - back] == mirror[p]);
            assert(idents(modules)[back] == id);
            let u = position(idents(modules), id)->0;
            if u < back {
                assert(idents(modules)[u] != idents(modules)[back]);
            }
            if back < u {
                assert(idents(modules)[back] != idents(modules)[u]);
            }
        },
        None => {
            if position(idents(modules), id) is Some {
                let u = position(idents(modules), id)->0;
                assert(idents(mirror)[n - 1 - u] == mirror[n - 1 - u].bay().ident());
                assert(false);
            }
        },
    }
}

proof fn lemma_connectable_mirror(
    modules: Seq<SynthModuleType>,
    mirror: Seq<SynthModuleType>,
    sink: ModuleId,
    sink_port: u8,
    src: ModuleId,
    src_port: u8,
)
    requires
        distinct(idents(modules)),
        mirrors(modules, mirror),
    ensures
        connectable(mirror, sink, sink_port, src, src_port) == connectable(
            modules,
            sink,
            sink_port,
            src,
            src_port,
        ),
{
    let n = modules.len() as int;
    lemma_position_mirror(modules, mirror, sink);
    lemma_position_mirror(modules, mirror, src);
    if position(idents(modules), sink) is Some {
        let s = position(idents(modules), sink)->0;
        assert(mirror[n - 1 - s].bay().inputs().len() == modules[s].bay().inputs().len());
    }
    if position(idents(modules), src) is Some {
        let u = position(idents(modules), src)->0;
        assert(mirror[n - 1 - u].bay().outputs().len() == modules[u].bay().outputs().len());
    }
}

/// Round trip: a patch that is written to a file and loaded again is the
/// same patch.
///
/// Let `modules` be the modules of a valid workspace, all set up for
/// `audio_config`; let `file` hold the patch as `serialize` leaves it, and
/// `loaded` the modules after `deserialize` has loaded `file` under
/// `audio_config`. Then `loaded` holds the modules of `modules` in the
/// opposite order: each with its identity, its name and its settings, and
/// with its inputs connected as they were, but for connections to a module
/// or a port that the patch does not have, which are gone. And the screen
/// positions `positions` that were loaded are those that `get_pos` found
/// for the modules.
pub proof fn lemma_round_trip<F: Fn(ModuleId) -> Result<Position, ()>>(
    modules: Seq<SynthModuleType>,
    file: FileFormat,
    get_pos: F,
    audio_config: AudioConfig,
    loaded: Seq<SynthModuleType>,
    positions: Seq<(ModuleId, Position)>,
)
    requires
        all_wf(modules),
        distinct(idents(modules)),
        forall|j: int| 0 <= j < modules.len() ==> (#[trigger] modules[j]).fits(audio_config),
        captured(modules, file, get_pos),
        restored(file.modules@, file.connections@, audio_config, loaded),
        positions == file.positions@,
    ensures
        exists|found: Seq<Result<Position, ()>>| #[trigger]
            found_by(idents(modules), found, get_pos) && positions == placed(
                idents(modules),
                found,
            ),
        loaded.len() == modules.len(),
        forall|j: int|
            0 <= j < modules.len() ==> {
                let back = #[trigger] loaded[modules.len() - 1 - j];
                &&& back.bay().ident() == modules[j].bay().ident()
                &&& back.name() == modules[j].name()
                &&& back.same_settings(&modules[j])
                &&& back.bay().inputs().len() == modules[j].bay().inputs().len()
                &&& forall|port: int|
                    0 <= port < modules[j].bay().inputs().len() ==> #[trigger] back.bay().inputs()[port]
                        == kept_slot(modules, modules[j].bay().inputs()[port])
            },
{
    let n = modules.len() as int;
    let held = file.modules@;
    let list = file.connections@;
    let staged = choose|staged: Seq<SynthModuleType>| #[trigger]
        staged_from(held, staged, audio_config) && wired(list, staged, loaded);
    lemma_wires(modules);
    assert forall|j: int| 0 <= j < n implies {
        let st = #[trigger] staged[n - 1 - j];
        &&& st.bay().ident() == modules[j].bay().ident()
        &&& st.bay().inputs() == unconnected(modules[j].bay().inputs().len())
        &&& st.bay().outputs().len() == modules[j].bay().outputs().len()
        &&& st.same_settings(&modules[j])
        &&& st.name() == modules[j].name()
    } by {
        let m = modules[j];
        let fm = held[j];
        let st = staged[n - 1 - j];
        assert(prepared(m, fm));
        assert(configured(held[held.len() - 1 - (n - 1 - j)], st, audio_config));
        m.lemma_fits(&fm, audio_config);
        st.lemma_settings_chain(&fm, &m);
        m.lemma_settings(&fm);
        m.lemma_settings(&st);
    }
    assert(mirrors(modules, staged)) by {
        assert forall|j: int| 0 <= j < n implies {
            let other = #[trigger] staged[n - 1 - j];
            &&& other.bay().ident() == modules[j].bay().ident()
            &&& other.bay().inputs().len() == modules[j].bay().inputs().len()
            &&& other.bay().outputs().len() == modules[j].bay().outputs().len()
        } by {}
    }
    assert forall|j: int| 0 <= j < n implies {
        let back = #[trigger] loaded[n - 1 - j];
        &&& back.bay().ident() == modules[j].bay().ident()
        &&& back.name() == modules[j].name()
        &&& back.same_settings(&modules[j])
        &&& back.bay().inputs().len() == modules[j].bay().inputs().len()
        &&& forall|port: int|
            0 <= port < modules[j].bay().inputs().len() ==> #[trigger] back.bay().inputs()[port]
                == kept_slot(modules, modules[j].bay().inputs()[port])
    } by {
        let m = modules[j];
        let st = staged[n - 1 - j];
        let back = loaded[n - 1 - j];
        let here = m.bay().ident();
        assert(rewired(st, back));
        back.lemma_settings_chain(&st, &m);
        m.lemma_settings(&back);
        m.lemma_settings(&m);
        assert forall|port: int| 0 <= port < m.bay().inputs().len() implies #[trigger] back.bay().inputs()[port]
            == kept_slot(modules, m.bay().inputs()[port]) by {
            assert(back.bay().inputs()[port] == plugged(list, staged, n - 1 - j, port));
            assert(st.bay().inputs()[port] is None);
            let slot = m.bay().inputs()[port];
            let wire = wire_to(slot, here, port as u8);
            assert forall|k: int|
                0 <= k < list.len() && ends_at(
                    #[trigger] list[k],
                    here,
                    port as u8,
                ) implies list[k] == wire && slot is Some by {
                let found = list[k];
                let i = choose|i: int|
                    0 <= i < modules.len() && (#[trigger] modules[i]).bay().ident() == found.2
                        && found.3 < modules[i].bay().inputs().len() && modules[i].bay().inputs()[found.3 as int]
                        == Some((found.0, found.1));
                if i < j {
                    assert(idents(modules)[i] != idents(modules)[j]);
                }
                if j < i {
                    assert(idents(modules)[j] != idents(modules)[i]);
                }
            }
            lemma_first_wire(list, staged, here, port as u8, wire.0, wire.1);
            reveal(can_be_made);
            lemma_connectable_mirror(modules, staged, here, port as u8, wire.0, wire.1);
            lemma_position(idents(modules), here);
            assert(idents(modules)[j] == here);
            let first = position(idents(modules), here)->0;
            if first < j {
                assert(idents(modules)[first] != idents(modules)[j]);
            }
            if slot is Some {
                assert(list.contains(wire));
            } else {
                if list.contains(wire) {
                    let k = choose|k: int| 0 <= k < list.len() && list[k] == wire;
                    assert(ends_at(list[k], here, port as u8));
                }
            }
        }
    }
}

/// Modules that keep their kinds keep the place of the first output
/// module.
pub proof fn lemma_first_output_kept(before: Seq<SynthModuleType>, after: Seq<SynthModuleType>)
    requires
        keeps_patch(before, after),
    ensures
        first_output(after) == first_output(before),
{
    assert forall|i: int| 0 <= i < before.len() implies (after[i] is OutputModule) == (
    before[i] is OutputModule) by {
        assert(after[i].same_kind(&before[i]));
    }
    lemma_first_output(before);
    lemma_first_output(after);
    match first_output(before) {
        Some(i) => {
            assert(first_output_at(after, i));
        },
        None => {
            if first_output(after) is Some {
                let i = first_output(after)->0;
                assert(first_output_at(after, i));
                assert(before[i] is OutputModule);
            }
        },
    }
}

/// Modules that keep their identities and connections read from the
/// modules they read from before.
pub proof fn lemma_reads_from_kept(
    before: Seq<SynthModuleType>,
    after: Seq<SynthModuleType>,
    v: int,
    u: int,
)
    requires
        keeps_patch(before, after),
    ensures
        reads_from(after, v, u) == reads_from(before, v, u),
{
    lemma_keeps_patch(before, after);
    if 0 <= v < before.len() {
        assert(after[v].bay().inputs() == before[v].bay().inputs());
    }
}

/// A workspace whose modules have kept their kinds, identities and
/// connections, and whose plan and output are what they were, is planned
/// if it was.
pub proof fn lemma_planned_kept(before: SynthModuleWorkspaceImpl, after: SynthModuleWorkspaceImpl)
    requires
        keeps_patch(before.modules(), after.modules()),
        after.same_patch(before),
    ensures
        before.is_planned() ==> after.is_planned(),
{
    lemma_keeps_patch(before.modules(), after.modules());
    lemma_first_output_kept(before.modules(), after.modules());
    if before.is_planned() {
        assert forall|v: int, u: int| #[trigger]
            reads_from(after.modules(), v, u) == reads_from(before.modules(), v, u) by {
            lemma_reads_from_kept(before.modules(), after.modules(), v, u);
        }
        if first_output(before.modules()) is Some {
            let o = first_output(before.modules())->0;
            lemma_first_output(before.modules());
            assert(after.modules()[o].bay().ident() == before.modules()[o].bay().ident());
            assert(plan_start(after.modules(), after.modules()[o].bay().ident()) == plan_start(
                before.modules(),
                before.modules()[o].bay().ident(),
            ));
        }
    }
}

/// In a planned workspace, a module that reads from another, and not
/// through feedback, comes after it in the plan, and finds it in every run
/// of the plan as that run leaves it: it reads the block of this run.
///
/// `trace` holds the states of a run of the plan that starts from the
/// modules of the workspace, `i` and `j` are the places in the plan of the
/// module that is read and of the module that reads.
pub proof fn lemma_reads_this_block<
    V: Fn(OscillatorState, Option<ControlVoltage>) -> (ControlVoltage, ControlVoltage, ControlVoltage, u64),
    D: Fn() -> ControlVoltage,
    P: Fn(u16, u16) -> ControlVoltage,
    A: Fn(ControlVoltage, u32, ControlVoltage) -> ControlVoltage,
    S: Fn(ADSRMode, ControlVoltage, ControlVoltage, ControlVoltage) -> ControlVoltage,
    M: Fn(ControlVoltage, ControlVoltage) -> ControlVoltage,
    L: Fn(MoogFilterSettings, ControlVoltage, ControlVoltage) -> (InternalMoogFilterState, ControlVoltage, ControlVoltage, ControlVoltage),
    X: Fn(ControlVoltage, ControlVoltage, ControlVoltage) -> ControlVoltage,
    Y: Fn(MathOperation, ControlVoltage, ControlVoltage) -> ControlVoltage,
    W: Fn(ModuleId) -> WaveState,
    Q: Fn(ControlVoltage) -> usize,
    R: Fn(ControlVoltage, u32, u32, ControlVoltage) -> ControlVoltage,
    T: Fn(ControlVoltage, ControlVoltage) -> (ControlVoltage, ControlVoltage),
    B: Fn(ModuleId, FreeverbUpdate) -> T,
>(
    kernels: Kernels<V, D, P, A, S, M, L, X, Y, W, Q, R, B>,
    space: SynthModuleWorkspaceImpl,
    trace: Seq<Seq<SynthModuleType>>,
    i: int,
    j: int,
)
    requires
        space.wf(),
        space.is_planned(),
        kernels.runs_plan(trace, space.plan_of()),
        trace[0] == space.modules(),
        0 <= i < space.plan_of().len(),
        0 <= j < space.plan_of().len(),
        reads_from(space.modules(), space.plan_of()[j] as int, space.plan_of()[i] as int),
        !on_cycle(
            dependency_graph(space.modules()),
            space.plan_of()[j] as int,
            space.plan_of()[i] as int,
        ),
    ensures
        i < j,
        trace[j][space.plan_of()[i] as int] == trace.last()[space.plan_of()[i] as int],
{
    let plan = space.plan_of();
    assert(first_output(space.modules()) is Some);
    assert(plan[i] < space.modules().len());
    kernels.lemma_run_order(trace, plan, i, j);
}

} // verus!
