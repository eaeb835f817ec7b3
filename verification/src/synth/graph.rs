//! The patch as a graph: which module reads from which, the plan that
//! follows from it, and the run of a plan.

use vstd::prelude::*;

use crate::synth::ControlVoltage;
use crate::synth::adsr::ADSRMode;
use crate::synth::buffer::AudioBuffer;
use crate::synth::catalog::SynthModuleType;
use crate::synth::compute::Kernels;
use crate::synth::compute::WaveState;
use crate::synth::filter::InternalMoogFilterState;
use crate::synth::filter::MoogFilterSettings;
use crate::synth::freeverb::FreeverbUpdate;
use crate::synth::ident::ModuleId;
use crate::synth::math::MathOperation;
use crate::synth::module::SynthModule;
use crate::synth::oscillator::OscillatorState;
use crate::synth::patchbay::blocks_of;
use crate::synth::patchbay::Connection;
use crate::synth::planner::depends_on;
use crate::synth::planner::graph_of;
use crate::synth::planner::in_plan;
use crate::synth::planner::loops_opened;
use crate::synth::planner::on_cycle;
use crate::synth::planner::plan_graph;
use crate::synth::planner::planned;
use crate::synth::planner::well_formed;

verus! {

/// The identities of a list of modules.
pub open spec fn idents(modules: Seq<SynthModuleType>) -> Seq<ModuleId> {
    Seq::new(modules.len(), |i: int| modules[i].bay().ident())
}

/// Every module of the list is valid.
pub open spec fn all_wf(modules: Seq<SynthModuleType>) -> bool {
    forall|i: int| 0 <= i < modules.len() ==> (#[trigger] modules[i]).wf()
}

/// The place of the first module with identity `id`, if there is one.
pub open spec fn position(ids: Seq<ModuleId>, id: ModuleId) -> Option<int> {
    if exists|i: int| 0 <= i < ids.len() && ids[i] == id {
        Some(choose|i: int| 0 <= i < ids.len() && ids[i] == id && forall|j: int| 0 <= j < i ==> ids[j] != id)
    } else {
        None
    }
}

/// `i` is the place of the first module with identity `id`.
pub open spec fn first_at(ids: Seq<ModuleId>, id: ModuleId, i: int) -> bool {
    &&& 0 <= i < ids.len()
    &&& ids[i] == id
    &&& forall|j: int| 0 <= j < i ==> ids[j] != id
}

/// `position` gives the first place of an identity that occurs, and
/// nothing for one that does not.
pub proof fn lemma_position(ids: Seq<ModuleId>, id: ModuleId)
    ensures
        match position(ids, id) {
            Some(i) => first_at(ids, id, i),
            None => forall|i: int| 0 <= i < ids.len() ==> ids[i] != id,
        },
        forall|i: int| first_at(ids, id, i) ==> position(ids, id) == Some(i),
{
    if exists|i: int| 0 <= i < ids.len() && ids[i] == id {
        let w = choose|i: int| 0 <= i < ids.len() && ids[i] == id;
        lemma_first_exists(ids, id, w);
        let p = position(ids, id)->0;
        assert(first_at(ids, id, p));
        assert forall|i: int| first_at(ids, id, i) implies position(ids, id) == Some(i) by {
            if i < p {
                assert(ids[i] != id);
            }
            if p < i {
                assert(ids[p] != id);
            }
        }
    }
}

proof fn lemma_first_exists(ids: Seq<ModuleId>, id: ModuleId, w: int)
    requires
        0 <= w < ids.len(),
        ids[w] == id,
    ensures
        exists|i: int| 0 <= i < ids.len() && ids[i] == id && forall|j: int| 0 <= j < i ==> ids[j] != id,
    decreases w,
{
    if exists|j: int| 0 <= j < w && ids[j] == id {
        let j = choose|j: int| 0 <= j < w && ids[j] == id;
        lemma_first_exists(ids, id, j);
    } else {
        assert(0 <= w < ids.len() && ids[w] == id && forall|j: int| 0 <= j < w ==> ids[j] != id);
    }
}

/// The module a connected slot reads from.
pub open spec fn source(slot: Option<Connection>) -> ModuleId {
    match slot {
        Some((id, _)) => id,
        None => 0,
    }
}

/// The modules that the slots read from, by their places in the list: one
/// entry for each connected slot whose module is in the list, in the order
/// of the slots.
pub open spec fn sources(ids: Seq<ModuleId>, slots: Seq<Option<Connection>>) -> Seq<usize>
    decreases slots.len(),
{
    if slots.len() == 0 {
        Seq::empty()
    } else {
        let rest = sources(ids, slots.drop_last());
        match slots.last() {
            Some((id, _)) => match position(ids, id) {
                Some(u) => rest.push(u as usize),
                None => rest,
            },
            None => rest,
        }
    }
}

/// The graph of a patch: for each module, in the order of the list, the
/// modules it reads from.
pub open spec fn dependency_graph(modules: Seq<SynthModuleType>) -> Seq<Seq<usize>> {
    Seq::new(modules.len(), |v: int| sources(idents(modules), modules[v].bay().inputs()))
}

/// One of the slots is connected to the module at place `u` of the list.
pub open spec fn names_module(ids: Seq<ModuleId>, slots: Seq<Option<Connection>>, u: int) -> bool {
    exists|i: int|
        0 <= i < slots.len() && (#[trigger] slots[i]) is Some && first_at(ids, source(slots[i]), u)
}

/// Module `v` of the list has an input slot connected to module `u` of the
/// list.
pub open spec fn reads_from(modules: Seq<SynthModuleType>, v: int, u: int) -> bool {
    0 <= v < modules.len() && names_module(idents(modules), modules[v].bay().inputs(), u)
}

/// Place `u` occurs in the list.
spec fn listed(list: Seq<usize>, u: int) -> bool {
    exists|k: int| 0 <= k < list.len() && #[trigger] list[k] == u
}

proof fn lemma_sources(ids: Seq<ModuleId>, slots: Seq<Option<Connection>>)
    requires
        ids.len() <= usize::MAX,
    ensures
        forall|k: int|
            0 <= k < sources(ids, slots).len() ==> (#[trigger] sources(ids, slots)[k]) < ids.len(),
        forall|u: int| #[trigger] listed(sources(ids, slots), u) <==> names_module(ids, slots, u),
    decreases slots.len(),
{
    let all = sources(ids, slots);
    if slots.len() > 0 {
        let front = slots.drop_last();
        let rest = sources(ids, front);
        lemma_sources(ids, front);
        match slots.last() {
            Some((id, _)) => {
                lemma_position(ids, id);
            },
            None => {},
        }
        assert forall|k: int| 0 <= k < all.len() implies (#[trigger] all[k]) < ids.len() by {
            if k < rest.len() {
                assert(all[k] == rest[k]);
            }
        }
        assert forall|u: int| #[trigger] listed(all, u) <==> names_module(ids, slots, u) by {
            if listed(all, u) {
                let k = choose|k: int| 0 <= k < all.len() && #[trigger] all[k] == u;
                if k < rest.len() {
                    assert(rest[k] == u);
                    assert(listed(rest, u));
                    assert(names_module(ids, front, u));
                    let i = choose|i: int|
                        0 <= i < front.len() && (#[trigger] front[i]) is Some && first_at(
                            ids,
                            source(front[i]),
                            u,
                        );
                    assert(slots[i] == front[i]);
                } else {
                    let i = slots.len() - 1;
                    assert(slots[i] == slots.last());
                    match slots.last() {
                        Some((id, _)) => {
                            assert(position(ids, id) is Some);
                            assert(all == rest.push(position(ids, id)->0 as usize));
                            assert(first_at(ids, id, u));
                        },
                        None => {
                            assert(all == rest);
                        },
                    }
                    assert(slots[i] is Some && first_at(ids, source(slots[i]), u));
                }
            }
            if names_module(ids, slots, u) {
                let i = choose|i: int|
                    0 <= i < slots.len() && (#[trigger] slots[i]) is Some && first_at(
                        ids,
                        source(slots[i]),
                        u,
                    );
                if i < front.len() {
                    assert(front[i] == slots[i]);
                    assert(names_module(ids, front, u));
                    assert(listed(rest, u));
                    let k = choose|k: int| 0 <= k < rest.len() && #[trigger] rest[k] == u;
                    assert(all[k] == u);
                } else {
                    assert(slots[i] == slots.last());
                    match slots.last() {
                        Some((id, _)) => {
                            assert(position(ids, id) == Some(u));
                            assert(all == rest.push(u as usize));
                        },
                        None => {},
                    }
                    assert(all[all.len() - 1] == u);
                }
            }
        }
    } else {
        assert forall|u: int| #[trigger] listed(all, u) <==> names_module(ids, slots, u) by {}
    }
}

/// The graph of a patch names only modules of the patch, and holds a
/// connection from `u` to `v` exactly where an input slot of `v` names `u`.
pub proof fn lemma_dependency_graph(modules: Seq<SynthModuleType>)
    requires
        modules.len() <= usize::MAX,
    ensures
        well_formed(dependency_graph(modules)),
        dependency_graph(modules).len() == modules.len(),
        forall|v: int, u: int|
            depends_on(dependency_graph(modules), v, u) <==> reads_from(modules, v, u),
{
    let g = dependency_graph(modules);
    let ids = idents(modules);
    assert forall|v: int, k: int| 0 <= v < g.len() && 0 <= k < g[v].len() implies (#[trigger] g[v][k])
        < g.len() by {
        lemma_sources(ids, modules[v].bay().inputs());
    }
    assert forall|v: int, u: int| depends_on(g, v, u) <==> reads_from(modules, v, u) by {
        if 0 <= v < modules.len() {
            lemma_sources(ids, modules[v].bay().inputs());
            assert(listed(g[v], u) <==> names_module(ids, modules[v].bay().inputs(), u));
            if depends_on(g, v, u) {
                let k = choose|k: int| 0 <= k < g[v].len() && #[trigger] g[v][k] == u;
                assert(listed(g[v], u));
            }
        }
    }
}

/// The slots of a module, copied out.
pub fn get_inputs<M: SynthModule>(module: &M) -> (slots: Vec<Option<Connection>>)
    requires
        module.wf(),
    ensures
        slots@ == module.bay().inputs(),
        slots.len() <= 255,
{
    let count = module.get_num_inputs();
    let mut slots: Vec<Option<Connection>> = Vec::with_capacity(count as usize);
    let mut idx: u8 = 0;
    while idx < count
        invariant
            idx <= count,
            count == module.bay().inputs().len(),
            slots@ == module.bay().inputs().subrange(0, idx as int),
        decreases count - idx,
    {
        let slot = module.get_input(idx);
        match slot {
            Ok(held) => slots.push(held),
            Err(_) => {},
        }
        idx += 1;
        assert(slots@ =~= module.bay().inputs().subrange(0, idx as int));
    }
    assert(slots@ =~= module.bay().inputs());
    slots
}

/// Whether two modules are one and the same: they have the same identity.
pub fn shared_are_eq(a: &SynthModuleType, b: &SynthModuleType) -> (same: bool)
    ensures
        same == (a.bay().ident() == b.bay().ident()),
{
    a.id() == b.id()
}

/// The place of the first module with identity `id`.
pub fn find_module(all_modules: &Vec<SynthModuleType>, id: ModuleId) -> (found: Option<usize>)
    ensures
        match found {
            Some(i) => position(idents(all_modules@), id) == Some(i as int),
            None => position(idents(all_modules@), id) is None,
        },
        found matches Some(i) ==> i < all_modules.len() && all_modules[i as int].bay().ident() == id,
{
    let ghost ids = idents(all_modules@);
    let mut i: usize = 0;
    while i < all_modules.len()
        invariant
            i <= all_modules.len(),
            ids == idents(all_modules@),
            forall|j: int| 0 <= j < i ==> ids[j] != id,
        decreases all_modules.len() - i,
    {
        if all_modules[i].id() == id {
            proof {
                assert(first_at(ids, id, i as int));
                lemma_position(ids, id);
            }
            return Some(i);
        }
        i += 1;
    }
    proof {
        lemma_position(ids, id);
    }
    None
}

/// The modules that `module` reads from, by their places in the list.
fn sources_of(all_modules: &Vec<SynthModuleType>, v: usize) -> (deps: Vec<usize>)
    requires
        v < all_modules.len(),
        all_modules[v as int].wf(),
    ensures
        deps@ == dependency_graph(all_modules@)[v as int],
{
    let ghost ids = idents(all_modules@);
    let slots = get_inputs(&all_modules[v]);
    let mut deps: Vec<usize> = Vec::new();
    let mut i: usize = 0;
    while i < slots.len()
        invariant
            i <= slots.len(),
            ids == idents(all_modules@),
            deps@ == sources(ids, slots@.subrange(0, i as int)),
        decreases slots.len() - i,
    {
        let ghost front = slots@.subrange(0, i as int);
        let ghost next = slots@.subrange(0, i + 1);
        assert(next.drop_last() =~= front);
        assert(next.last() == slots[i as int]);
        match slots[i] {
            Some((id, _)) => {
                match find_module(all_modules, id) {
                    Some(u) => deps.push(u),
                    None => {},
                }
            },
            None => {},
        }
        i += 1;
    }
    assert(slots@.subrange(0, slots.len() as int) =~= slots@);
    deps
}

/// The node that the search for feedback loops starts from, for the
/// terminal module `output`: the place of the first module with that
/// identity, and no node if there is none.
pub open spec fn plan_start(modules: Seq<SynthModuleType>, output: ModuleId) -> usize {
    match position(idents(modules), output) {
        Some(at) => at as usize,
        None => modules.len() as usize,
    }
}

/// Computes the order in which the modules of a patch are to be run, for
/// the terminal module `output`.
///
/// `plan` receives the places of all modules of the list, each once. A
/// module comes after every module it reads from, except through
/// connections that lie on a feedback loop: a loop is opened (at the
/// connection where the search that starts at `output` finds it closed),
/// and through an opened connection a module reads what the other wrote
/// one block before. Among the modules that can go next, the first of the
/// list goes first.
pub fn plan_execution(output: ModuleId, all_modules: &Vec<SynthModuleType>, plan: &mut Vec<usize>)
    requires
        all_wf(all_modules@),
    ensures
        planned(
            dependency_graph(all_modules@),
            loops_opened(dependency_graph(all_modules@), plan_start(all_modules@, output)),
            final(plan)@,
        ),
        final(plan).len() == all_modules.len(),
        forall|k: int| 0 <= k < final(plan).len() ==> (#[trigger] final(plan)[k]) < all_modules.len(),
        forall|i: int, j: int| 0 <= i < j < final(plan).len() ==> final(plan)[i] != final(plan)[j],
        forall|x: int| 0 <= x < all_modules.len() ==> #[trigger] in_plan(final(plan)@, x),
        forall|i: int, j: int|
            0 <= i < final(plan).len() && 0 <= j < final(plan).len() && reads_from(
                all_modules@,
                #[trigger] final(plan)[j] as int,
                #[trigger] final(plan)[i] as int,
            ) && !on_cycle(
                dependency_graph(all_modules@),
                final(plan)[j] as int,
                final(plan)[i] as int,
            ) ==> i < j,
{
    let ghost g = dependency_graph(all_modules@);
    let n = all_modules.len();
    let mut edges: Vec<Vec<usize>> = Vec::with_capacity(n);
    let mut v: usize = 0;
    while v < n
        invariant
            v <= n,
            n == all_modules.len(),
            all_wf(all_modules@),
            g == dependency_graph(all_modules@),
            edges.len() == v,
            forall|w: int| 0 <= w < v ==> (#[trigger] edges[w])@ == g[w],
        decreases n - v,
    {
        edges.push(sources_of(all_modules, v));
        v += 1;
    }
    proof {
        assert(graph_of(&edges) =~= g);
        lemma_dependency_graph(all_modules@);
    }
    let start = match find_module(all_modules, output) {
        Some(at) => at,
        None => n,
    };
    *plan = plan_graph(start, edges);
}

/// A module of the plan has changed in a way that a display should show.
pub open spec fn any_dirty(modules: Seq<SynthModuleType>, plan: Seq<usize>) -> bool {
    exists|k: int|
        0 <= k < plan.len() && (#[trigger] plan[k]) < modules.len() && modules[plan[k] as int].dirty()
}

/// Whether any module of the plan has changed in a way that a display
/// should show.
pub fn ui_dirty(all_modules: &Vec<SynthModuleType>, plan: &Vec<usize>) -> (dirty: bool)
    ensures
        dirty == any_dirty(all_modules@, plan@),
{
    let mut k: usize = 0;
    while k < plan.len()
        invariant
            k <= plan.len(),
            forall|j: int|
                0 <= j < k ==> !((#[trigger] plan[j]) < all_modules.len()
                    && all_modules[plan[j] as int].dirty()),
        decreases plan.len() - k,
    {
        if plan[k] < all_modules.len() && all_modules[plan[k]].ui_dirty() {
            return true;
        }
        k += 1;
    }
    false
}

/// What input slot `input_idx` of `module` reads.
pub open spec fn resolved(
    inputs: Seq<Option<Connection>>,
    input_idx: u8,
    all_modules: Seq<SynthModuleType>,
) -> Result<Option<Seq<ControlVoltage>>, ()> {
    if input_idx >= inputs.len() {
        Err(())
    } else {
        match inputs[input_idx as int] {
            None => Ok(None),
            Some((id, port)) => match position(idents(all_modules), id) {
                None => Ok(None),
                Some(u) => if port < all_modules[u].bay().outputs().len() {
                    Ok(all_modules[u].bay().outputs()[port as int])
                } else {
                    Err(())
                },
            },
        }
    }
}

/// The block that input slot `input_idx` of `module` reads: a copy of the
/// output buffer it is connected to, or the empty buffer where the slot is
/// not connected or names a module that is not in the list. An error if
/// the module has no such slot, or the module it reads from no such port.
pub fn resolve_input<M: SynthModule>(
    module: &M,
    input_idx: u8,
    all_modules: &Vec<SynthModuleType>,
) -> (block: Result<AudioBuffer, ()>)
    ensures
        match block {
            Ok(buffer) => resolved(module.bay().inputs(), input_idx, all_modules@) == Ok::<
                Option<Seq<ControlVoltage>>,
                (),
            >(buffer@),
            Err(_) => resolved(module.bay().inputs(), input_idx, all_modules@) is Err,
        },
{
    match module.get_input(input_idx) {
        Err(_) => Err(()),
        Ok(None) => Ok(AudioBuffer::new(None)),
        Ok(Some((id, port))) => match find_module(all_modules, id) {
            None => Ok(AudioBuffer::new(None)),
            Some(u) => match all_modules[u].get_output(port) {
                Ok(buffer) => Ok(buffer.deep_clone()),
                Err(_) => Err(()),
            },
        },
    }
}


/// What the inputs of the module at place `at` read, slot by slot: the
/// block of the output an input is connected to, and nothing for an input
/// that is not connected, or is connected to what is not there.
pub open spec fn reads(modules: Seq<SynthModuleType>, at: int) -> Seq<Option<Seq<ControlVoltage>>> {
    Seq::new(
        modules[at].bay().inputs().len(),
        |i: int|
            match resolved(modules[at].bay().inputs(), i as u8, modules) {
                Ok(block) => block,
                Err(_) => None,
            },
    )
}

/// Copies of the blocks that the inputs of the module at place `at` read,
/// with an empty buffer for an input that reads nothing.
pub fn resolve_inputs(all_modules: &Vec<SynthModuleType>, at: usize) -> (inputs: Vec<AudioBuffer>)
    requires
        at < all_modules.len(),
        all_modules[at as int].wf(),
    ensures
        blocks_of(inputs@) == reads(all_modules@, at as int),
{
    let count = all_modules[at].get_num_inputs();
    let mut inputs: Vec<AudioBuffer> = Vec::with_capacity(count as usize);
    let mut idx: u8 = 0;
    while idx < count
        invariant
            idx <= count,
            at < all_modules.len(),
            count == all_modules[at as int].bay().inputs().len(),
            inputs.len() == idx,
            forall|i: int|
                0 <= i < idx ==> (#[trigger] inputs[i])@ == reads(all_modules@, at as int)[i],
        decreases count - idx,
    {
        let block = match resolve_input(&all_modules[at], idx, all_modules) {
            Ok(buffer) => buffer,
            Err(_) => AudioBuffer::new(None),
        };
        inputs.push(block);
        idx += 1;
    }
    assert(blocks_of(inputs@) =~= reads(all_modules@, at as int));
    inputs
}

impl<
    V: Fn(OscillatorState, Option<ControlVoltage>) -> (ControlVoltage, ControlVoltage, ControlVoltage, u64),
    D: Fn() -> ControlVoltage,
    P: Fn(u16, u16) -> ControlVoltage,
    A: Fn(ControlVoltage, u32, ControlVoltage) -> ControlVoltage,
    S: Fn(ADSRMode, ControlVoltage, ControlVoltage, ControlVoltage) -> ControlVoltage,
    M: Fn(ControlVoltage, ControlVoltage) -> ControlVoltage,
    L: Fn(MoogFilterSettings, ControlVoltage, ControlVoltage) -> (InternalMoogFilterState, ControlVoltage, ControlVoltage, ControlVoltage),
    X: Fn(ControlVoltage, ControlVoltage, ControlVoltage) -> ControlVoltage,
    Y: Fn(MathOperation, ControlVoltage, ControlVoltage) -> ControlVoltage,
    W: Fn(ModuleId) -> WaveState,
    Q: Fn(ControlVoltage) -> usize,
    R: Fn(ControlVoltage, u32, u32, ControlVoltage) -> ControlVoltage,
    T: Fn(ControlVoltage, ControlVoltage) -> (ControlVoltage, ControlVoltage),
    B: Fn(ModuleId, FreeverbUpdate) -> T,
> Kernels<V, D, P, A, S, M, L, X, Y, W, Q, R, B> {
    /// Running the module at place `at` takes the modules from `before` to
    /// `after`: the module computes one block from the blocks its inputs
    /// read in `before`, and the other modules stay as they are. A place
    /// that holds no module changes nothing.
    pub open spec fn runs_module(
        &self,
        before: Seq<SynthModuleType>,
        at: int,
        after: Seq<SynthModuleType>,
    ) -> bool {
        if 0 <= at < before.len() {
            &&& after.len() == before.len()
            &&& forall|j: int| 0 <= j < before.len() && j != at ==> after[j] == before[j]
            &&& self.computes(before[at], reads(before, at), after[at])
        } else {
            after == before
        }
    }

    /// The modules pass through the states of `trace` as the modules of
    /// the plan are run one after the other.
    pub open spec fn runs_plan(&self, trace: Seq<Seq<SynthModuleType>>, plan: Seq<usize>) -> bool {
        &&& trace.len() == plan.len() + 1
        &&& forall|k: int|
            0 <= k < plan.len() ==> self.runs_module(#[trigger] trace[k], plan[k] as int, trace[k + 1])
    }

    /// The modules have run the plan once since they were `before`.
    pub open spec fn runs(
        &self,
        before: Seq<SynthModuleType>,
        plan: Seq<usize>,
        after: Seq<SynthModuleType>,
    ) -> bool {
        exists|trace: Seq<Seq<SynthModuleType>>|
            {
                &&& #[trigger] self.runs_plan(trace, plan)
                &&& trace[0] == before
                &&& trace.last() == after
            }
    }

    /// Running one module leaves every module its kind, its identity and
    /// its connections.
    pub proof fn lemma_runs_module(
        &self,
        before: Seq<SynthModuleType>,
        at: int,
        after: Seq<SynthModuleType>,
    )
        requires
            self.runs_module(before, at, after),
        ensures
            keeps_patch(before, after),
    {
        if 0 <= at < before.len() {
            self.lemma_computes(before[at], reads(before, at), after[at]);
        }
        assert forall|j: int| 0 <= j < before.len() implies {
            &&& (#[trigger] after[j]).same_kind(&before[j])
            &&& after[j].bay().ident() == before[j].bay().ident()
            &&& after[j].bay().inputs() == before[j].bay().inputs()
        } by {
            if j != at {
                assert(after[j] == before[j]);
            }
        }
    }

    /// Running a plan leaves every module its kind, its identity and its
    /// connections: the patch is wired as it was, whatever the plan.
    pub proof fn lemma_runs(
        &self,
        before: Seq<SynthModuleType>,
        plan: Seq<usize>,
        after: Seq<SynthModuleType>,
    )
        requires
            self.runs(before, plan, after),
        ensures
            keeps_patch(before, after),
            idents(after) == idents(before),
            dependency_graph(after) == dependency_graph(before),
    {
        let trace = choose|trace: Seq<Seq<SynthModuleType>>|
            {
                &&& #[trigger] self.runs_plan(trace, plan)
                &&& trace[0] == before
                &&& trace.last() == after
            };
        self.lemma_trace(trace, plan, plan.len() as int);
        lemma_keeps_patch(before, after);
    }

    /// The steps of a run from `from` to `to` leave a module alone that is
    /// not run in them.
    proof fn lemma_untouched(
        &self,
        trace: Seq<Seq<SynthModuleType>>,
        plan: Seq<usize>,
        u: int,
        from: int,
        to: int,
    )
        requires
            self.runs_plan(trace, plan),
            0 <= from <= to <= plan.len(),
            0 <= u < trace[from].len(),
            forall|k: int| from <= k < to ==> plan[k] != u,
        ensures
            trace[to].len() == trace[from].len(),
            trace[to][u] == trace[from][u],
        decreases to - from,
    {
        if from < to {
            self.lemma_untouched(trace, plan, u, from, to - 1);
            assert(self.runs_module(trace[to - 1], plan[to - 1] as int, trace[to]));
        }
    }

    /// The order of a run: in a run of a plan that names no module twice,
    /// the module at place `j` of the plan finds a module that comes
    /// before it in the plan as this run leaves it, and a module that comes
    /// after it as the run found it.
    ///
    /// So a module reads from the modules before it the blocks of this
    /// run, and from those after it, which feed back, the blocks of the
    /// run before.
    pub proof fn lemma_run_order(
        &self,
        trace: Seq<Seq<SynthModuleType>>,
        plan: Seq<usize>,
        i: int,
        j: int,
    )
        requires
            self.runs_plan(trace, plan),
            forall|a: int, b: int| 0 <= a < b < plan.len() ==> plan[a] != plan[b],
            0 <= i < plan.len(),
            0 <= j < plan.len(),
            plan[i] < trace[0].len(),
        ensures
            i < j ==> trace[j][plan[i] as int] == trace.last()[plan[i] as int],
            i >= j ==> trace[j][plan[i] as int] == trace[0][plan[i] as int],
    {
        let u = plan[i] as int;
        if i < j {
            self.lemma_lengths(trace, plan, j);
            self.lemma_untouched(trace, plan, u, j, plan.len() as int);
        }
        if i >= j {
            self.lemma_untouched(trace, plan, u, 0, j);
        }
    }

    /// Each module of a plan that names no module twice computes one block
    /// in a run: what the run leaves of the module at place `j` of the
    /// plan is computed from the module as the run found it, and from the
    /// blocks its inputs read when its turn came.
    pub proof fn lemma_run_step(
        &self,
        trace: Seq<Seq<SynthModuleType>>,
        plan: Seq<usize>,
        j: int,
    )
        requires
            self.runs_plan(trace, plan),
            forall|a: int, b: int| 0 <= a < b < plan.len() ==> plan[a] != plan[b],
            0 <= j < plan.len(),
            plan[j] < trace[0].len(),
        ensures
            self.computes(
                trace[0][plan[j] as int],
                reads(trace[j], plan[j] as int),
                trace.last()[plan[j] as int],
            ),
    {
        let v = plan[j] as int;
        self.lemma_untouched(trace, plan, v, 0, j);
        assert(self.runs_module(trace[j], v, trace[j + 1]));
        self.lemma_untouched(trace, plan, v, j + 1, plan.len() as int);
    }

    /// A run leaves the number of modules as it is.
    proof fn lemma_lengths(&self, trace: Seq<Seq<SynthModuleType>>, plan: Seq<usize>, upto: int)
        requires
            self.runs_plan(trace, plan),
            0 <= upto <= plan.len(),
        ensures
            trace[upto].len() == trace[0].len(),
        decreases upto,
    {
        if upto > 0 {
            self.lemma_lengths(trace, plan, upto - 1);
            assert(self.runs_module(trace[upto - 1], plan[upto - 1] as int, trace[upto]));
        }
    }

    /// Every state of a run holds the modules the run started from, each
    /// with its kind, its identity and its connections.
    pub proof fn lemma_trace(&self, trace: Seq<Seq<SynthModuleType>>, plan: Seq<usize>, upto: int)
        requires
            self.runs_plan(trace, plan),
            0 <= upto <= plan.len(),
        ensures
            keeps_patch(trace[0], trace[upto]),
        decreases upto,
    {
        if upto > 0 {
            self.lemma_trace(trace, plan, upto - 1);
            assert(self.runs_module(trace[upto - 1], plan[upto - 1] as int, trace[upto]));
            self.lemma_runs_module(trace[upto - 1], plan[upto - 1] as int, trace[upto]);
        } else {
            assert forall|j: int| 0 <= j < trace[0].len() implies (#[trigger] trace[0][j]).same_kind(
                &trace[0][j],
            ) by {}
        }
    }
}

/// The modules of `after` are those of `before`, each with the kind, the
/// identity and the connections it had.
pub open spec fn keeps_patch(before: Seq<SynthModuleType>, after: Seq<SynthModuleType>) -> bool {
    &&& after.len() == before.len()
    &&& forall|j: int|
        0 <= j < before.len() ==> {
            &&& (#[trigger] after[j]).same_kind(&before[j])
            &&& after[j].bay().ident() == before[j].bay().ident()
            &&& after[j].bay().inputs() == before[j].bay().inputs()
        }
}

/// Modules that keep their identities and connections keep their
/// dependency graph.
pub proof fn lemma_keeps_patch(before: Seq<SynthModuleType>, after: Seq<SynthModuleType>)
    requires
        keeps_patch(before, after),
    ensures
        idents(after) == idents(before),
        dependency_graph(after) == dependency_graph(before),
{
    assert(idents(after) =~= idents(before));
    assert(dependency_graph(after) =~= dependency_graph(before)) by {
        assert forall|j: int| 0 <= j < before.len() implies dependency_graph(after)[j]
            == dependency_graph(before)[j] by {
            assert(after[j].bay().inputs() == before[j].bay().inputs());
        }
    }
}

/// Computes one block: runs the modules in the order of the plan, each on
/// copies of the blocks its inputs read.
///
/// A module that comes later in the plan reads what the modules before it
/// have written in this run, and a module that comes earlier, or the module
/// itself, what was written in the run before.
pub fn execute<
    V: Fn(OscillatorState, Option<ControlVoltage>) -> (ControlVoltage, ControlVoltage, ControlVoltage, u64),
    D: Fn() -> ControlVoltage,
    P: Fn(u16, u16) -> ControlVoltage,
    A: Fn(ControlVoltage, u32, ControlVoltage) -> ControlVoltage,
    S: Fn(ADSRMode, ControlVoltage, ControlVoltage, ControlVoltage) -> ControlVoltage,
    M: Fn(ControlVoltage, ControlVoltage) -> ControlVoltage,
    L: Fn(MoogFilterSettings, ControlVoltage, ControlVoltage) -> (InternalMoogFilterState, ControlVoltage, ControlVoltage, ControlVoltage),
    X: Fn(ControlVoltage, ControlVoltage, ControlVoltage) -> ControlVoltage,
    Y: Fn(MathOperation, ControlVoltage, ControlVoltage) -> ControlVoltage,
    W: Fn(ModuleId) -> WaveState,
    Q: Fn(ControlVoltage) -> usize,
    R: Fn(ControlVoltage, u32, u32, ControlVoltage) -> ControlVoltage,
    T: Fn(ControlVoltage, ControlVoltage) -> (ControlVoltage, ControlVoltage),
    B: Fn(ModuleId, FreeverbUpdate) -> T,
>(
    all_modules: &mut Vec<SynthModuleType>,
    plan: &Vec<usize>,
    kernels: &Kernels<V, D, P, A, S, M, L, X, Y, W, Q, R, B>,
)
    requires
        all_wf(old(all_modules)@),
        kernels.total(),
    ensures
        all_wf(final(all_modules)@),
        kernels.runs(old(all_modules)@, plan@, final(all_modules)@),
{
    let ghost start = all_modules@;
    let ghost mut trace: Seq<Seq<SynthModuleType>> = seq![all_modules@];
    let mut k: usize = 0;
    while k < plan.len()
        invariant
            k <= plan.len(),
            start == old(all_modules)@,
            all_wf(all_modules@),
            kernels.total(),
            trace.len() == k + 1,
            trace[0] == start,
            trace.last() == all_modules@,
            forall|i: int|
                0 <= i < k ==> kernels.runs_module(#[trigger] trace[i], plan[i] as int, trace[i + 1]),
        decreases plan.len() - k,
    {
        let at = plan[k];
        let ghost before = all_modules@;
        if at < all_modules.len() {
            assert(before[at as int].wf());
            let inputs = resolve_inputs(all_modules, at);
            all_modules[at].calc(&inputs, kernels);
            proof {
                let after = all_modules@;
                assert forall|j: int| 0 <= j < after.len() implies (#[trigger] after[j]).wf() by {
                    if j != at {
                        assert(before[j].wf());
                    }
                }
            }
        }
        proof {
            assert(kernels.runs_module(before, at as int, all_modules@));
            trace = trace.push(all_modules@);
        }
        k += 1;
    }
    proof {
        assert(kernels.runs_plan(trace, plan@));
        assert(trace[0] == old(all_modules)@);
        assert(trace.last() == all_modules@);
    }
}

} // verus!
