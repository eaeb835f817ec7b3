//! What a run of a planned patch computes: which blocks the modules read,
//! and what comes of it at the output.

use vstd::prelude::*;

use crate::synth::adsr::ADSRMode;
use crate::synth::buffer::sample_at;
use crate::synth::catalog::SynthModuleType;
use crate::synth::compute::Kernels;
use crate::synth::compute::WaveState;
use crate::synth::filter::InternalMoogFilterState;
use crate::synth::filter::MoogFilterSettings;
use crate::synth::freeverb::FreeverbUpdate;
use crate::synth::graph::dependency_graph;
use crate::synth::graph::first_at;
use crate::synth::graph::idents;
use crate::synth::graph::keeps_patch;
use crate::synth::graph::lemma_keeps_patch;
use crate::synth::graph::lemma_position;
use crate::synth::graph::position;
use crate::synth::graph::reads;
use crate::synth::graph::reads_from;
use crate::synth::graph::source;
use crate::synth::ident::ModuleId;
use crate::synth::math::MathOperation;
use crate::synth::module::SynthModule;
use crate::synth::oscillator::OscillatorState;
use crate::synth::planner::in_plan;
use crate::synth::planner::on_cycle;
use crate::synth::ControlVoltage;
use crate::ui::lemma_first_output;
use crate::ui::lemma_reads_this_block;
use crate::ui::SynthModuleWorkspaceImpl;

verus! {

/// Input slot `slot` of the module at place `v` feeds nothing back: it is
/// not connected, or to no module of the list, or to a module that does
/// not read from the module at `v` in turn, directly or through others.
pub open spec fn feeds_forward(modules: Seq<SynthModuleType>, v: int, slot: int) -> bool {
    match modules[v].bay().inputs()[slot] {
        Some((id, _)) => match position(idents(modules), id) {
            Some(u) => !on_cycle(dependency_graph(modules), v, u),
            None => true,
        },
        None => true,
    }
}

/// In a planned workspace, an input that feeds nothing back reads in every
/// run of the plan the block of that run: what the module at place `j` of
/// the plan reads through the input when its turn comes is what the input
/// reads when the run is over.
///
/// `trace` holds the states of a run of the plan that starts from the
/// modules of the workspace.
pub proof fn lemma_reads_fresh<
    V: Fn(OscillatorState, Option<ControlVoltage>) -> (ControlVoltage, ControlVoltage, ControlVoltage, u64),
    D: Fn() -> ControlVoltage,
    P: Fn(u16, u16) -> ControlVoltage,
    A: Fn(ControlVoltage, u32, ControlVoltage) -> ControlVoltage,
    S: Fn(ADSRMode, ControlVoltage, ControlVoltage, ControlVoltage) -> ControlVoltage,
    M: Fn(ControlVoltage, ControlVoltage) -> ControlVoltage,
    L: Fn(MoogFilterSettings, ControlVoltage, ControlVoltage) -> (InternalMoogFilterState, ControlVoltage, ControlVoltage, ControlVoltage),
    X: Fn(ControlVoltage, ControlVoltage, ControlVoltage) -> ControlVoltage,
    Y: Fn(MathOperation, ControlVoltage, ControlVoltage) -> ControlVoltage,
    W: Fn(ModuleId) -> WaveState,
    Q: Fn(ControlVoltage) -> usize,
    R: Fn(ControlVoltage, u32, u32, ControlVoltage) -> ControlVoltage,
    T: Fn(ControlVoltage, ControlVoltage) -> (ControlVoltage, ControlVoltage),
    B: Fn(ModuleId, FreeverbUpdate) -> T,
>(
    kernels: Kernels<V, D, P, A, S, M, L, X, Y, W, Q, R, B>,
    space: SynthModuleWorkspaceImpl,
    trace: Seq<Seq<SynthModuleType>>,
    j: int,
    slot: int,
)
    requires
        space.wf(),
        space.is_planned(),
        kernels.runs_plan(trace, space.plan_of()),
        trace[0] == space.modules(),
        0 <= j < space.plan_of().len(),
        0 <= slot < space.modules()[space.plan_of()[j] as int].bay().inputs().len(),
        feeds_forward(space.modules(), space.plan_of()[j] as int, slot),
    ensures
        reads(trace[j], space.plan_of()[j] as int)[slot] == reads(
            trace.last(),
            space.plan_of()[j] as int,
        )[slot],
{
    let plan = space.plan_of();
    let modules = space.modules();
    let v = plan[j] as int;
    let last = trace.last();
    kernels.lemma_trace(trace, plan, j);
    kernels.lemma_trace(trace, plan, plan.len() as int);
    assert(0 <= v < modules.len());
    assert(modules[v].wf());
    lemma_ports(modules[v]);
    match modules[v].bay().inputs()[slot] {
        Some((id, port)) => {
            match position(idents(modules), id) {
                Some(u) => {
                    lemma_slot_reads_from(modules, v, slot);
                    assert(0 <= u < modules.len());
                    assert(in_plan(plan, u));
                    let i = choose|i: int| 0 <= i < plan.len() && #[trigger] plan[i] == u;
                    lemma_reads_this_block(kernels, space, trace, i, j);
                    assert(trace[j][u] == last[u]);
                },
                None => {},
            }
        },
        None => {},
    }
    lemma_same_read(modules, trace[j], last, v, slot);
}

/// A valid module has at most 255 inputs and at most 255 outputs.
pub proof fn lemma_ports(module: SynthModuleType)
    requires
        module.wf(),
    ensures
        module.bay().inputs().len() <= 255,
        module.bay().outputs().len() <= 255,
{
}

/// A slot that is connected to a module of the list makes its module read
/// from that module.
proof fn lemma_slot_reads_from(modules: Seq<SynthModuleType>, v: int, slot: int)
    requires
        0 <= v < modules.len(),
        0 <= slot < modules[v].bay().inputs().len(),
        modules[v].bay().inputs()[slot] is Some,
        position(idents(modules), source(modules[v].bay().inputs()[slot])) is Some,
    ensures
        ({
            let u = position(idents(modules), source(modules[v].bay().inputs()[slot]))->0;
            0 <= u < modules.len() && reads_from(modules, v, u)
        }),
{
    let slots = modules[v].bay().inputs();
    let id = source(slots[slot]);
    lemma_position(idents(modules), id);
    let u = position(idents(modules), id)->0;
    assert(first_at(idents(modules), source(slots[slot]), u));
}

/// Two states of a patch in which a slot finds the module it is connected
/// to the same, give the slot the same block to read.
proof fn lemma_same_read(
    modules: Seq<SynthModuleType>,
    first: Seq<SynthModuleType>,
    second: Seq<SynthModuleType>,
    v: int,
    slot: int,
)
    requires
        keeps_patch(modules, first),
        keeps_patch(modules, second),
        0 <= v < modules.len(),
        0 <= slot < modules[v].bay().inputs().len(),
        modules[v].bay().inputs().len() <= 255,
        match modules[v].bay().inputs()[slot] {
            Some((id, _)) => match position(idents(modules), id) {
                Some(u) => first[u] == second[u],
                None => true,
            },
            None => true,
        },
    ensures
        reads(first, v)[slot] == reads(second, v)[slot],
{
    lemma_keeps_patch(modules, first);
    lemma_keeps_patch(modules, second);
    assert(first[v].bay().inputs() == modules[v].bay().inputs());
    assert(second[v].bay().inputs() == modules[v].bay().inputs());
    assert(slot as u8 == slot);
}

/// In a planned workspace, a module that feeds nothing back computes its
/// block in every run from the blocks of that run: what the run leaves of
/// the module at place `v` is computed from the module as the run found
/// it and from what its inputs read when the run is over.
pub proof fn lemma_computes_fresh<
    V: Fn(OscillatorState, Option<ControlVoltage>) -> (ControlVoltage, ControlVoltage, ControlVoltage, u64),
    D: Fn() -> ControlVoltage,
    P: Fn(u16, u16) -> ControlVoltage,
    A: Fn(ControlVoltage, u32, ControlVoltage) -> ControlVoltage,
    S: Fn(ADSRMode, ControlVoltage, ControlVoltage, ControlVoltage) -> ControlVoltage,
    M: Fn(ControlVoltage, ControlVoltage) -> ControlVoltage,
    L: Fn(MoogFilterSettings, ControlVoltage, ControlVoltage) -> (InternalMoogFilterState, ControlVoltage, ControlVoltage, ControlVoltage),
    X: Fn(ControlVoltage, ControlVoltage, ControlVoltage) -> ControlVoltage,
    Y: Fn(MathOperation, ControlVoltage, ControlVoltage) -> ControlVoltage,
    W: Fn(ModuleId) -> WaveState,
    Q: Fn(ControlVoltage) -> usize,
    R: Fn(ControlVoltage, u32, u32, ControlVoltage) -> ControlVoltage,
    T: Fn(ControlVoltage, ControlVoltage) -> (ControlVoltage, ControlVoltage),
    B: Fn(ModuleId, FreeverbUpdate) -> T,
>(
    kernels: Kernels<V, D, P, A, S, M, L, X, Y, W, Q, R, B>,
    space: SynthModuleWorkspaceImpl,
    after: Seq<SynthModuleType>,
    v: int,
)
    requires
        space.wf(),
        space.is_planned(),
        kernels.runs(space.modules(), space.plan_of(), after),
        0 <= v < space.modules().len(),
        space.output() is Some,
        forall|slot: int|
            0 <= slot < space.modules()[v].bay().inputs().len() ==> #[trigger] feeds_forward(
                space.modules(),
                v,
                slot,
            ),
    ensures
        kernels.computes(space.modules()[v], reads(after, v), after[v]),
{
    let plan = space.plan_of();
    let modules = space.modules();
    let trace = choose|trace: Seq<Seq<SynthModuleType>>|
        {
            &&& #[trigger] kernels.runs_plan(trace, plan)
            &&& trace[0] == modules
            &&& trace.last() == after
        };
    lemma_first_output(modules);
    assert(in_plan(plan, v));
    let j = choose|j: int| 0 <= j < plan.len() && #[trigger] plan[j] == v;
    kernels.lemma_run_step(trace, plan, j);
    kernels.lemma_trace(trace, plan, j);
    kernels.lemma_trace(trace, plan, plan.len() as int);
    assert(trace[j][v].bay().inputs() == modules[v].bay().inputs());
    assert(after[v].bay().inputs() == modules[v].bay().inputs());
    assert forall|slot: int| 0 <= slot < modules[v].bay().inputs().len() implies reads(
        trace[j],
        v,
    )[slot] == reads(after, v)[slot] by {
        assert(feeds_forward(modules, v, slot));
        lemma_reads_fresh(kernels, space, trace, j, slot);
    }
    assert(reads(trace[j], v) =~= reads(after, v));
}

/// Module `after` is the amplifier `before` after it has computed one
/// block from the blocks `audio` and `cv`.
pub open spec fn amplifies<M: Fn(ControlVoltage, ControlVoltage) -> ControlVoltage>(
    before: SynthModuleType,
    audio: Option<Seq<ControlVoltage>>,
    cv: Option<Seq<ControlVoltage>>,
    after: SynthModuleType,
    multiply: M,
) -> bool {
    match (before, after) {
        (SynthModuleType::VCAModule(b), SynthModuleType::VCAModule(a)) => a.computed(
            b,
            audio,
            cv,
            multiply,
        ),
        _ => false,
    }
}

/// Module `output` is an output module whose channel `channel` holds the
/// samples of `block`, and silence where the block ends early or there is
/// none.
pub open spec fn holds_block(
    output: SynthModuleType,
    channel: int,
    block: Option<Seq<ControlVoltage>>,
) -> bool {
    match output {
        SynthModuleType::OutputModule(o) => {
            &&& 0 <= channel < o.blocks().len()
            &&& o.blocks()[channel] is Some
            &&& forall|i: int|
                0 <= i < o.blocks()[channel]->0.len() ==> (#[trigger] o.blocks()[channel]->0[i])
                    == sample_at(block, i)
        },
        _ => false,
    }
}

/// An amplifier into the output plays the product of its inputs.
///
/// Let a planned workspace hold an amplifier at place `amp`, fed forward,
/// and an output module at place `out` whose input `channel` is connected
/// to the amplifier. Then after every run of the plan the amplifier holds
/// the block that it computes from the blocks its two inputs read after
/// the run, and the channel of the output module holds that block, sample
/// by sample. The order of the modules in the list does not matter.
pub proof fn lemma_amplifier_plays<
    V: Fn(OscillatorState, Option<ControlVoltage>) -> (ControlVoltage, ControlVoltage, ControlVoltage, u64),
    D: Fn() -> ControlVoltage,
    P: Fn(u16, u16) -> ControlVoltage,
    A: Fn(ControlVoltage, u32, ControlVoltage) -> ControlVoltage,
    S: Fn(ADSRMode, ControlVoltage, ControlVoltage, ControlVoltage) -> ControlVoltage,
    M: Fn(ControlVoltage, ControlVoltage) -> ControlVoltage,
    L: Fn(MoogFilterSettings, ControlVoltage, ControlVoltage) -> (InternalMoogFilterState, ControlVoltage, ControlVoltage, ControlVoltage),
    X: Fn(ControlVoltage, ControlVoltage, ControlVoltage) -> ControlVoltage,
    Y: Fn(MathOperation, ControlVoltage, ControlVoltage) -> ControlVoltage,
    W: Fn(ModuleId) -> WaveState,
    Q: Fn(ControlVoltage) -> usize,
    R: Fn(ControlVoltage, u32, u32, ControlVoltage) -> ControlVoltage,
    T: Fn(ControlVoltage, ControlVoltage) -> (ControlVoltage, ControlVoltage),
    B: Fn(ModuleId, FreeverbUpdate) -> T,
>(
    kernels: Kernels<V, D, P, A, S, M, L, X, Y, W, Q, R, B>,
    space: SynthModuleWorkspaceImpl,
    after: Seq<SynthModuleType>,
    amp: int,
    out: int,
    channel: int,
)
    requires
        space.wf(),
        space.is_planned(),
        kernels.runs(space.modules(), space.plan_of(), after),
        0 <= amp < space.modules().len(),
        0 <= out < space.modules().len(),
        space.modules()[amp] is VCAModule,
        space.modules()[out] is OutputModule,
        0 <= channel < space.modules()[out].bay().inputs().len(),
        space.modules()[out].bay().inputs()[channel] == Some(
            (space.modules()[amp].bay().ident(), 0u8),
        ),
        forall|slot: int|
            0 <= slot < space.modules()[amp].bay().inputs().len() ==> #[trigger] feeds_forward(
                space.modules(),
                amp,
                slot,
            ),
        forall|slot: int|
            0 <= slot < space.modules()[out].bay().inputs().len() ==> #[trigger] feeds_forward(
                space.modules(),
                out,
                slot,
            ),
    ensures
        amplifies(
            space.modules()[amp],
            reads(after, amp)[0],
            reads(after, amp)[1],
            after[amp],
            kernels.multiply,
        ),
        holds_block(after[out], channel, after[amp].bay().outputs()[0]),
{
    let modules = space.modules();
    lemma_valid(space, amp);
    lemma_valid(space, out);
    lemma_has_output(space, out);
    lemma_amplifier_ports(modules[amp]);
    lemma_computes_fresh(kernels, space, after, amp);
    lemma_computes_fresh(kernels, space, after, out);
    lemma_runs_keep(kernels, space, after);
    lemma_chain(kernels, modules, after, amp, out, channel);
}

/// The modules of a valid workspace are valid, and no two have one
/// identity.
proof fn lemma_valid(space: SynthModuleWorkspaceImpl, v: int)
    requires
        space.wf(),
        0 <= v < space.modules().len(),
    ensures
        space.modules()[v].wf(),
        forall|i: int, j: int|
            0 <= i < j < space.modules().len() ==> idents(space.modules())[i] != idents(
                space.modules(),
            )[j],
{
}

/// A planned workspace that holds an output module has a plan for one.
proof fn lemma_has_output(space: SynthModuleWorkspaceImpl, out: int)
    requires
        space.is_planned(),
        0 <= out < space.modules().len(),
        space.modules()[out] is OutputModule,
    ensures
        space.output() is Some,
{
    lemma_first_output(space.modules());
}

/// An amplifier has two inputs.
proof fn lemma_amplifier_ports(module: SynthModuleType)
    requires
        module.wf(),
        module is VCAModule,
    ensures
        module.bay().inputs().len() == 2,
{
}

/// The two steps of a chain from an amplifier to a channel of the output,
/// put together.
proof fn lemma_chain<
    V: Fn(OscillatorState, Option<ControlVoltage>) -> (ControlVoltage, ControlVoltage, ControlVoltage, u64),
    D: Fn() -> ControlVoltage,
    P: Fn(u16, u16) -> ControlVoltage,
    A: Fn(ControlVoltage, u32, ControlVoltage) -> ControlVoltage,
    S: Fn(ADSRMode, ControlVoltage, ControlVoltage, ControlVoltage) -> ControlVoltage,
    M: Fn(ControlVoltage, ControlVoltage) -> ControlVoltage,
    L: Fn(MoogFilterSettings, ControlVoltage, ControlVoltage) -> (InternalMoogFilterState, ControlVoltage, ControlVoltage, ControlVoltage),
    X: Fn(ControlVoltage, ControlVoltage, ControlVoltage) -> ControlVoltage,
    Y: Fn(MathOperation, ControlVoltage, ControlVoltage) -> ControlVoltage,
    W: Fn(ModuleId) -> WaveState,
    Q: Fn(ControlVoltage) -> usize,
    R: Fn(ControlVoltage, u32, u32, ControlVoltage) -> ControlVoltage,
    T: Fn(ControlVoltage, ControlVoltage) -> (ControlVoltage, ControlVoltage),
    B: Fn(ModuleId, FreeverbUpdate) -> T,
>(
    kernels: Kernels<V, D, P, A, S, M, L, X, Y, W, Q, R, B>,
    modules: Seq<SynthModuleType>,
    after: Seq<SynthModuleType>,
    amp: int,
    out: int,
    channel: int,
)
    requires
        keeps_patch(modules, after),
        forall|i: int, j: int| 0 <= i < j < modules.len() ==> idents(modules)[i] != idents(modules)[j],
        0 <= amp < modules.len(),
        0 <= out < modules.len(),
        modules[amp].wf(),
        modules[out].wf(),
        modules[amp] is VCAModule,
        modules[out] is OutputModule,
        0 <= channel < modules[out].bay().inputs().len(),
        modules[out].bay().inputs()[channel] == Some((modules[amp].bay().ident(), 0u8)),
        kernels.computes(modules[amp], reads(after, amp), after[amp]),
        kernels.computes(modules[out], reads(after, out), after[out]),
    ensures
        amplifies(
            modules[amp],
            reads(after, amp)[0],
            reads(after, amp)[1],
            after[amp],
            kernels.multiply,
        ),
        holds_block(after[out], channel, after[amp].bay().outputs()[0]),
{
    lemma_ports(modules[out]);
    lemma_amplifier_ports(modules[amp]);
    assert(after[amp].bay().inputs() == modules[amp].bay().inputs());
    assert(after[out].bay().inputs() == modules[out].bay().inputs());
    lemma_amplifier_step(kernels, modules[amp], reads(after, amp), after[amp]);
    lemma_output_step(kernels, modules[out], reads(after, out), after[out], channel);
    lemma_reads_port(modules, after, out, channel, amp);
}

/// What an amplifier computes.
proof fn lemma_amplifier_step<
    V: Fn(OscillatorState, Option<ControlVoltage>) -> (ControlVoltage, ControlVoltage, ControlVoltage, u64),
    D: Fn() -> ControlVoltage,
    P: Fn(u16, u16) -> ControlVoltage,
    A: Fn(ControlVoltage, u32, ControlVoltage) -> ControlVoltage,
    S: Fn(ADSRMode, ControlVoltage, ControlVoltage, ControlVoltage) -> ControlVoltage,
    M: Fn(ControlVoltage, ControlVoltage) -> ControlVoltage,
    L: Fn(MoogFilterSettings, ControlVoltage, ControlVoltage) -> (InternalMoogFilterState, ControlVoltage, ControlVoltage, ControlVoltage),
    X: Fn(ControlVoltage, ControlVoltage, ControlVoltage) -> ControlVoltage,
    Y: Fn(MathOperation, ControlVoltage, ControlVoltage) -> ControlVoltage,
    W: Fn(ModuleId) -> WaveState,
    Q: Fn(ControlVoltage) -> usize,
    R: Fn(ControlVoltage, u32, u32, ControlVoltage) -> ControlVoltage,
    T: Fn(ControlVoltage, ControlVoltage) -> (ControlVoltage, ControlVoltage),
    B: Fn(ModuleId, FreeverbUpdate) -> T,
>(
    kernels: Kernels<V, D, P, A, S, M, L, X, Y, W, Q, R, B>,
    before: SynthModuleType,
    inputs: Seq<Option<Seq<ControlVoltage>>>,
    after: SynthModuleType,
)
    requires
        kernels.computes(before, inputs, after),
        before is VCAModule,
        inputs.len() == 2,
    ensures
        amplifies(before, inputs[0], inputs[1], after, kernels.multiply),
        after.bay().outputs().len() == 1,
{
    reveal(Kernels::computes);
}

/// What an output module computes.
proof fn lemma_output_step<
    V: Fn(OscillatorState, Option<ControlVoltage>) -> (ControlVoltage, ControlVoltage, ControlVoltage, u64),
    D: Fn() -> ControlVoltage,
    P: Fn(u16, u16) -> ControlVoltage,
    A: Fn(ControlVoltage, u32, ControlVoltage) -> ControlVoltage,
    S: Fn(ADSRMode, ControlVoltage, ControlVoltage, ControlVoltage) -> ControlVoltage,
    M: Fn(ControlVoltage, ControlVoltage) -> ControlVoltage,
    L: Fn(MoogFilterSettings, ControlVoltage, ControlVoltage) -> (InternalMoogFilterState, ControlVoltage, ControlVoltage, ControlVoltage),
    X: Fn(ControlVoltage, ControlVoltage, ControlVoltage) -> ControlVoltage,
    Y: Fn(MathOperation, ControlVoltage, ControlVoltage) -> ControlVoltage,
    W: Fn(ModuleId) -> WaveState,
    Q: Fn(ControlVoltage) -> usize,
    R: Fn(ControlVoltage, u32, u32, ControlVoltage) -> ControlVoltage,
    T: Fn(ControlVoltage, ControlVoltage) -> (ControlVoltage, ControlVoltage),
    B: Fn(ModuleId, FreeverbUpdate) -> T,
>(
    kernels: Kernels<V, D, P, A, S, M, L, X, Y, W, Q, R, B>,
    before: SynthModuleType,
    inputs: Seq<Option<Seq<ControlVoltage>>>,
    after: SynthModuleType,
    channel: int,
)
    requires
        kernels.computes(before, inputs, after),
        before is OutputModule,
        before.wf(),
        inputs.len() == before.bay().inputs().len(),
        0 <= channel < inputs.len(),
    ensures
        holds_block(after, channel, inputs[channel]),
{
    reveal(Kernels::computes);
}

/// A run leaves the modules their identities and connections.
proof fn lemma_runs_keep<
    V: Fn(OscillatorState, Option<ControlVoltage>) -> (ControlVoltage, ControlVoltage, ControlVoltage, u64),
    D: Fn() -> ControlVoltage,
    P: Fn(u16, u16) -> ControlVoltage,
    A: Fn(ControlVoltage, u32, ControlVoltage) -> ControlVoltage,
    S: Fn(ADSRMode, ControlVoltage, ControlVoltage, ControlVoltage) -> ControlVoltage,
    M: Fn(ControlVoltage, ControlVoltage) -> ControlVoltage,
    L: Fn(MoogFilterSettings, ControlVoltage, ControlVoltage) -> (InternalMoogFilterState, ControlVoltage, ControlVoltage, ControlVoltage),
    X: Fn(ControlVoltage, ControlVoltage, ControlVoltage) -> ControlVoltage,
    Y: Fn(MathOperation, ControlVoltage, ControlVoltage) -> ControlVoltage,
    W: Fn(ModuleId) -> WaveState,
    Q: Fn(ControlVoltage) -> usize,
    R: Fn(ControlVoltage, u32, u32, ControlVoltage) -> ControlVoltage,
    T: Fn(ControlVoltage, ControlVoltage) -> (ControlVoltage, ControlVoltage),
    B: Fn(ModuleId, FreeverbUpdate) -> T,
>(
    kernels: Kernels<V, D, P, A, S, M, L, X, Y, W, Q, R, B>,
    space: SynthModuleWorkspaceImpl,
    after: Seq<SynthModuleType>,
)
    requires
        kernels.runs(space.modules(), space.plan_of(), after),
    ensures
        keeps_patch(space.modules(), after),
{
    kernels.lemma_runs(space.modules(), space.plan_of(), after);
}

/// A slot that is connected to port 0 of a module reads the block of that
/// port.
proof fn lemma_reads_port(
    modules: Seq<SynthModuleType>,
    after: Seq<SynthModuleType>,
    v: int,
    slot: int,
    u: int,
)
    requires
        keeps_patch(modules, after),
        forall|i: int, j: int| 0 <= i < j < modules.len() ==> idents(modules)[i] != idents(modules)[j],
        0 <= v < modules.len(),
        0 <= u < modules.len(),
        0 <= slot < modules[v].bay().inputs().len(),
        modules[v].bay().inputs().len() <= 255,
        modules[v].bay().inputs()[slot] == Some((modules[u].bay().ident(), 0u8)),
        after[u].bay().outputs().len() >= 1,
    ensures
        reads(after, v)[slot] == after[u].bay().outputs()[0],
{
    lemma_keeps_patch(modules, after);
    let ids = idents(modules);
    let id = modules[u].bay().ident();
    assert(ids[u] == id);
    assert(first_at(ids, id, u));
    lemma_position(ids, id);
    assert(after[v].bay().inputs() == modules[v].bay().inputs());
    assert(slot as u8 == slot);
}

} // verus!
