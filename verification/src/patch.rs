//! A patch as it is written to a file: the modules, the connections
//! between them, and where the modules stand on the screen.

use vstd::prelude::*;

use crate::synth::catalog::SynthModuleType;
use crate::synth::graph::all_wf;
use crate::synth::graph::find_module;
use crate::synth::graph::get_inputs;
use crate::synth::graph::idents;
use crate::synth::graph::lemma_position;
use crate::synth::graph::position;
use crate::synth::ident::ModuleId;
use crate::synth::module::unconnected;
use crate::synth::module::SynthModule;
use crate::synth::patchbay::resized_blocks;
use crate::synth::patchbay::Connection;
use crate::synth::AudioConfig;
use crate::ui::connectable;
use crate::ui::distinct;
use crate::ui::rewired;
use crate::ui::Position;

verus! {

/// A connection as a file holds it: the module and the port it comes from,
/// then the module and the port it goes to.
pub type Wire = (ModuleId, u8, ModuleId, u8);

/// The connections that end at the slots of module `sink`, in the order of
/// the slots.
pub open spec fn wires_of(sink: ModuleId, slots: Seq<Option<Connection>>) -> Seq<Wire>
    decreases slots.len(),
{
    if slots.len() == 0 {
        Seq::empty()
    } else {
        let rest = wires_of(sink, slots.drop_last());
        match slots.last() {
            Some((src, port)) => rest.push((src, port, sink, (slots.len() - 1) as u8)),
            None => rest,
        }
    }
}

/// The connections of a list of modules, module by module.
pub open spec fn wires(modules: Seq<SynthModuleType>) -> Seq<Wire>
    decreases modules.len(),
{
    if modules.len() == 0 {
        Seq::empty()
    } else {
        wires(modules.drop_last()) + wires_of(
            modules.last().bay().ident(),
            modules.last().bay().inputs(),
        )
    }
}

/// Module `copy` is module `module` as a file holds it: the same module
/// with no input connected.
pub open spec fn prepared(module: SynthModuleType, copy: SynthModuleType) -> bool {
    &&& rewired(module, copy)
    &&& copy.bay().inputs() == unconnected(module.bay().inputs().len())
}

/// The positions of the modules for which one was found: `found[j]` is
/// what was found for the module with identity `ids[j]`.
pub open spec fn placed(ids: Seq<ModuleId>, found: Seq<Result<Position, ()>>) -> Seq<
    (ModuleId, Position),
>
    decreases ids.len(),
{
    if ids.len() == 0 || found.len() != ids.len() {
        Seq::empty()
    } else {
        let rest = placed(ids.drop_last(), found.drop_last());
        match found.last() {
            Ok(pos) => rest.push((ids.last(), pos)),
            Err(_) => rest,
        }
    }
}

/// What `get_pos` found for each of the modules.
pub open spec fn found_by<F: Fn(ModuleId) -> Result<Position, ()>>(
    ids: Seq<ModuleId>,
    found: Seq<Result<Position, ()>>,
    get_pos: F,
) -> bool {
    &&& found.len() == ids.len()
    &&& forall|j: int| 0 <= j < ids.len() ==> call_ensures(get_pos, (ids[j],), #[trigger] found[j])
}

/// Module `after` is module `before` after it has been given the audio
/// configuration: the same module with buffers of the configuration's
/// block length, and with the same settings if it was set up for the
/// configuration before.
pub open spec fn configured(
    before: SynthModuleType,
    after: SynthModuleType,
    audio_config: AudioConfig,
) -> bool {
    &&& after.wf()
    &&& after.same_kind(&before)
    &&& after.bay().ident() == before.bay().ident()
    &&& after.bay().inputs() == before.bay().inputs()
    &&& after.bay().outputs() == resized_blocks(
        before.bay().outputs(),
        audio_config.buffer_size as nat,
    )
    &&& after.name() == before.name()
    &&& after.fits(audio_config)
    &&& before.fits(audio_config) ==> after.same_settings(&before)
}

/// The connection can be made among the modules of the list: both its
/// modules are there and have the ports it names.
#[verifier::opaque]
pub open spec fn can_be_made(modules: Seq<SynthModuleType>, wire: Wire) -> bool {
    connectable(modules, wire.2, wire.3, wire.0, wire.1)
}

/// The first of the connections that ends at input `port` of module `sink`
/// and can be made among the modules of the list.
pub open spec fn first_wire(
    wires: Seq<Wire>,
    modules: Seq<SynthModuleType>,
    sink: ModuleId,
    port: u8,
) -> Option<Connection>
    decreases wires.len(),
{
    if wires.len() == 0 {
        None
    } else {
        let (src, src_port, to, to_port) = wires[0];
        if to == sink && to_port == port && can_be_made(modules, wires[0]) {
            Some((src, src_port))
        } else {
            first_wire(wires.drop_first(), modules, sink, port)
        }
    }
}

/// What input `port` of the module at place `j` holds after the
/// connections have been made: where one of them ends there, what the
/// first of these says, else what it held.
pub open spec fn plugged(
    wires: Seq<Wire>,
    modules: Seq<SynthModuleType>,
    j: int,
    port: int,
) -> Option<Connection> {
    match first_wire(wires, modules, modules[j].bay().ident(), port as u8) {
        Some(connection) => Some(connection),
        None => modules[j].bay().inputs()[port],
    }
}

/// The list `after` is the list `before` with the connections made.
pub open spec fn wired(
    wires: Seq<Wire>,
    before: Seq<SynthModuleType>,
    after: Seq<SynthModuleType>,
) -> bool {
    &&& after.len() == before.len()
    &&& forall|j: int|
        0 <= j < before.len() ==> {
            &&& rewired(before[j], #[trigger] after[j])
            &&& after[j].bay().inputs().len() == before[j].bay().inputs().len()
            &&& forall|port: int|
                0 <= port < before[j].bay().inputs().len() ==> #[trigger] after[j].bay().inputs()[port]
                    == plugged(wires, before, j, port)
        }
}

/// A patch as a file holds it.
#[derive(Debug)]
pub struct FileFormat {
    /// The modules, none of their inputs connected.
    pub modules: Vec<SynthModuleType>,
    /// The connections.
    pub connections: Vec<Wire>,
    /// The screen positions, each with the identity of its module.
    pub positions: Vec<(ModuleId, Position)>,
}

/// A copy of a module as a file holds it: with no input connected.
pub fn prep_for_serialization<M: SynthModule>(module: &M) -> (copy: M)
    ensures
        copy.bay().ident() == module.bay().ident(),
        copy.bay().outputs() == module.bay().outputs(),
        copy.bay().inputs() == unconnected(module.bay().inputs().len()),
        copy.same_settings(module),
        module.wf() ==> copy.wf(),
{
    let mut copy = module.deep_clone();
    let ghost cloned = copy;
    copy.disconnect_inputs();
    proof {
        copy.lemma_settings_chain(&cloned, module);
        copy.lemma_settings(&copy);
        cloned.lemma_settings(&copy);
        copy.lemma_settings(&cloned);
    }
    copy
}

/// A copy of a module of any kind as a file holds it. Every kind can be
/// written to a file, so there is no error.
pub fn any_module_to_enum(module: &SynthModuleType) -> (copy: Result<SynthModuleType, ()>)
    ensures
        copy matches Ok(held) && prepared(*module, held),
{
    Ok(prep_for_serialization(module))
}

impl FileFormat {
    /// An empty patch.
    pub fn new() -> (file: Self)
        ensures
            file.modules@.len() == 0,
            file.connections@.len() == 0,
            file.positions@.len() == 0,
    {
        FileFormat { modules: Vec::new(), connections: Vec::new(), positions: Vec::new() }
    }

    /// Adds a copy of each module, with no input connected.
    pub fn capture_modules(&mut self, modules: &Vec<SynthModuleType>)
        ensures
            final(self).connections == old(self).connections,
            final(self).positions == old(self).positions,
            final(self).modules.len() == old(self).modules.len() + modules.len(),
            forall|j: int|
                0 <= j < old(self).modules.len() ==> final(self).modules[j] == old(self).modules[j],
            forall|j: int|
                0 <= j < modules.len() ==> prepared(
                    modules[j],
                    #[trigger] final(self).modules[old(self).modules.len() + j],
                ),
    {
        let ghost start = self.modules@;
        let mut j: usize = 0;
        while j < modules.len()
            invariant
                j <= modules.len(),
                self.connections == old(self).connections,
                self.positions == old(self).positions,
                start == old(self).modules@,
                self.modules.len() == start.len() + j,
                forall|i: int| 0 <= i < start.len() ==> self.modules[i] == start[i],
                forall|i: int|
                    0 <= i < j ==> prepared(modules[i], #[trigger] self.modules[start.len() + i]),
            decreases modules.len() - j,
        {
            match any_module_to_enum(&modules[j]) {
                Ok(copy) => self.modules.push(copy),
                Err(_) => {},
            }
            j += 1;
        }
    }

    /// Adds the connections of the modules: for each module in turn, one
    /// for each of its inputs that is connected.
    pub fn capture_connections(&mut self, modules: &Vec<SynthModuleType>)
        requires
            all_wf(modules@),
        ensures
            final(self).modules == old(self).modules,
            final(self).positions == old(self).positions,
            final(self).connections@ == old(self).connections@ + wires(modules@),
    {
        let ghost start = self.connections@;
        let mut j: usize = 0;
        while j < modules.len()
            invariant
                j <= modules.len(),
                all_wf(modules@),
                self.modules == old(self).modules,
                self.positions == old(self).positions,
                start == old(self).connections@,
                self.connections@ == start + wires(modules@.subrange(0, j as int)),
            decreases modules.len() - j,
        {
            let sink = modules[j].id();
            let slots = get_inputs(&modules[j]);
            let ghost so_far = self.connections@;
            let mut port: usize = 0;
            while port < slots.len()
                invariant
                    port <= slots.len(),
                    slots.len() <= 255,
                    self.modules == old(self).modules,
                    self.positions == old(self).positions,
                    self.connections@ == so_far + wires_of(sink, slots@.subrange(0, port as int)),
                decreases slots.len() - port,
            {
                let ghost front = slots@.subrange(0, port as int);
                let ghost next = slots@.subrange(0, port + 1);
                assert(next.drop_last() =~= front);
                assert(next.last() == slots[port as int]);
                match slots[port] {
                    Some((src, src_port)) => {
                        self.connections.push((src, src_port, sink, port as u8));
                        assert(self.connections@ =~= so_far + wires_of(sink, next));
                    },
                    None => {},
                }
                port += 1;
            }
            proof {
                assert(slots@.subrange(0, slots.len() as int) =~= slots@);
                let upto = modules@.subrange(0, j + 1);
                assert(upto.drop_last() =~= modules@.subrange(0, j as int));
                assert(upto.last() == modules[j as int]);
                assert(self.connections@ =~= start + wires(upto));
            }
            j += 1;
        }
        assert(modules@.subrange(0, modules.len() as int) =~= modules@);
    }

    /// Adds the screen position of each module for which `get_pos` finds
    /// one.
    pub fn capture_pos<F: Fn(ModuleId) -> Result<Position, ()>>(
        &mut self,
        modules: &Vec<SynthModuleType>,
        get_pos: F,
    )
        requires
            forall|id: ModuleId| call_requires(get_pos, (id,)),
        ensures
            final(self).modules == old(self).modules,
            final(self).connections == old(self).connections,
            exists|found: Seq<Result<Position, ()>>| #[trigger]
                found_by(idents(modules@), found, get_pos) && final(self).positions@ == old(
                    self,
                ).positions@ + placed(idents(modules@), found),
    {
        let ghost start = self.positions@;
        let ghost ids = idents(modules@);
        let ghost mut found: Seq<Result<Position, ()>> = Seq::empty();
        let mut j: usize = 0;
        while j < modules.len()
            invariant
                j <= modules.len(),
                ids == idents(modules@),
                forall|id: ModuleId| call_requires(get_pos, (id,)),
                self.modules == old(self).modules,
                self.connections == old(self).connections,
                start == old(self).positions@,
                found.len() == j,
                forall|i: int| 0 <= i < j ==> call_ensures(get_pos, (ids[i],), #[trigger] found[i]),
                self.positions@ == start + placed(ids.subrange(0, j as int), found),
            decreases modules.len() - j,
        {
            let id = modules[j].id();
            let answer = get_pos(id);
            proof {
                let grown = found.push(answer);
                let upto = ids.subrange(0, j + 1);
                assert(upto.drop_last() =~= ids.subrange(0, j as int));
                assert(grown.drop_last() =~= found);
                assert(upto.last() == id);
                found = grown;
            }
            match answer {
                Ok(pos) => {
                    self.positions.push((id, pos));
                    assert(self.positions@ =~= start + placed(ids.subrange(0, j + 1), found));
                },
                Err(_) => {},
            }
            j += 1;
        }
        proof {
            assert(ids.subrange(0, modules.len() as int) =~= ids);
            assert(found_by(ids, found, get_pos));
        }
    }

    /// Hands out the screen positions and leaves none.
    pub fn unpack_pos(&mut self) -> (positions: Vec<(ModuleId, Position)>)
        ensures
            positions@ == old(self).positions@,
            final(self).positions@.len() == 0,
            final(self).modules == old(self).modules,
            final(self).connections == old(self).connections,
    {
        let mut positions: Vec<(ModuleId, Position)> = Vec::new();
        core::mem::swap(&mut positions, &mut self.positions);
        positions
    }

    /// Moves the modules to the end of `modules`, the last first, and
    /// gives each the audio configuration on the way.
    pub fn unpack_modules(&mut self, modules: &mut Vec<SynthModuleType>, audio_config: &AudioConfig)
        requires
            all_wf(old(self).modules@),
        ensures
            final(self).modules@.len() == 0,
            final(self).connections == old(self).connections,
            final(self).positions == old(self).positions,
            final(modules).len() == old(modules).len() + old(self).modules.len(),
            forall|j: int| 0 <= j < old(modules).len() ==> final(modules)[j] == old(modules)[j],
            forall|j: int|
                0 <= j < old(self).modules.len() ==> configured(
                    old(self).modules[old(self).modules.len() - 1 - j],
                    #[trigger] final(modules)[old(modules).len() + j],
                    *audio_config,
                ),
    {
        let ghost held = self.modules@;
        let ghost start = modules@;
        let ghost n = held.len();
        while self.modules.len() > 0
            invariant
                self.connections == old(self).connections,
                self.positions == old(self).positions,
                held == old(self).modules@,
                start == old(modules)@,
                n == held.len(),
                all_wf(held),
                self.modules.len() <= n,
                self.modules@ == held.subrange(0, self.modules.len() as int),
                modules.len() == start.len() + (n - self.modules.len()),
                forall|j: int| 0 <= j < start.len() ==> modules[j] == start[j],
                forall|j: int|
                    0 <= j < n - self.modules.len() ==> configured(
                        held[n - 1 - j],
                        #[trigger] modules[start.len() + j],
                        *audio_config,
                    ),
            decreases self.modules.len(),
        {
            let ghost left = self.modules.len();
            let mut module = self.modules.pop().unwrap();
            assert(module == held[left - 1]);
            assert(held[left - 1].wf());
            let ghost before = module;
            module.set_audio_config(audio_config);
            assert(configured(before, module, *audio_config));
            modules.push(module);
            assert(self.modules@ =~= held.subrange(0, self.modules.len() as int));
        }
    }

    /// Makes the connections among `modules`, the last first, so that of
    /// two connections to one input the first stays, and leaves none. A
    /// connection is passed over if one of its modules is not in the list
    /// or has no such port.
    pub fn unpack_connections(&mut self, modules: &mut Vec<SynthModuleType>) -> (done: Result<
        (),
        (),
    >)
        requires
            all_wf(old(modules)@),
            distinct(idents(old(modules)@)),
        ensures
            done is Ok,
            final(self).connections@.len() == 0,
            final(self).modules == old(self).modules,
            final(self).positions == old(self).positions,
            wired(old(self).connections@, old(modules)@, final(modules)@),
            all_wf(final(modules)@),
            idents(final(modules)@) == idents(old(modules)@),
    {
        let ghost all = self.connections@;
        let ghost start = modules@;
        let ghost n = all.len();
        proof {
            assert forall|j: int| 0 <= j < start.len() implies {
                &&& rewired(start[j], #[trigger] start[j])
                &&& forall|port: int|
                    0 <= port < start[j].bay().inputs().len() ==> #[trigger] start[j].bay().inputs()[port]
                        == plugged(all.subrange(n as int, n as int), start, j, port)
            } by {
                start[j].lemma_settings(&start[j]);
            }
        }
        while self.connections.len() > 0
            invariant
                self.modules == old(self).modules,
                self.positions == old(self).positions,
                all == old(self).connections@,
                start == old(modules)@,
                n == all.len(),
                all_wf(start),
                distinct(idents(start)),
                self.connections.len() <= n,
                self.connections@ == all.subrange(0, self.connections.len() as int),
                wired(all.subrange(self.connections.len() as int, n as int), start, modules@),
                all_wf(modules@),
                idents(modules@) == idents(start),
                forall|j: int|
                    0 <= j < start.len() ==> (#[trigger] modules[j]).bay().outputs() == start[j].bay().outputs(),
            decreases self.connections.len(),
        {
            let ghost left = self.connections.len();
            let ghost done = all.subrange(left as int, n as int);
            let ghost now = modules@;
            let (src, src_port, sink, sink_port) = self.connections.pop().unwrap();
            assert((src, src_port, sink, sink_port) == all[left - 1]);
            assert(self.connections@ =~= all.subrange(0, self.connections.len() as int));
            let ghost next = all.subrange(left - 1, n as int);
            assert(next.drop_first() =~= done);
            assert(next[0] == all[left - 1]);
            let at = find_module(modules, sink);
            let from = find_module(modules, src);
            let mut made = false;
            match (at, from) {
                (Some(at), Some(from)) => {
                    assert(now[at as int].wf());
                    assert(now[from as int].wf());
                    assert(rewired(start[at as int], now[at as int]));
                    if sink_port < modules[at].get_num_inputs() && src_port
                        < modules[from].get_num_outputs() {
                        let _ = modules[at].set_input(sink_port, src, src_port);
                        made = true;
                        proof {
                            modules[at as int].lemma_settings_chain(&now[at as int], &start[at as int]);
                        }
                    }
                },
                _ => {},
            }
            proof {
                let after = modules@;
                assert(made == connectable(start, sink, sink_port, src, src_port)) by {
                    assert(idents(now) == idents(start));
                    if at is Some {
                        assert(now[at->0 as int].bay().inputs().len() == start[at->0 as int].bay().inputs().len());
                    }
                    if from is Some {
                        assert(now[from->0 as int].bay().outputs() == start[from->0 as int].bay().outputs());
                    }
                }
                assert(idents(after) =~= idents(start));
                assert forall|j: int| 0 <= j < start.len() implies {
                    &&& rewired(start[j], #[trigger] after[j])
                    &&& after[j].bay().inputs().len() == start[j].bay().inputs().len()
                    &&& forall|port: int|
                        0 <= port < start[j].bay().inputs().len() ==> #[trigger] after[j].bay().inputs()[port]
                            == plugged(next, start, j, port)
                } by {
                    assert(rewired(start[j], now[j]));
                    assert(start[j].wf());
                    start[j].lemma_settings(&start[j]);
                    assert forall|port: int| 0 <= port < start[j].bay().inputs().len() implies #[trigger] after[j].bay().inputs()[port]
                        == plugged(next, start, j, port) by {
                        assert(now[j].bay().inputs()[port] == plugged(done, start, j, port));
                        let here = start[j].bay().ident();
                        assert(port as u8 == port);
                        reveal(can_be_made);
                        assert(first_wire(next, start, here, port as u8) == if sink == here
                            && sink_port == port as u8 && connectable(
                            start,
                            sink,
                            sink_port,
                            src,
                            src_port,
                        ) {
                            Some((src, src_port))
                        } else {
                            first_wire(done, start, here, port as u8)
                        });
                        if made {
                            lemma_position(idents(start), sink);
                            assert(idents(start)[at->0 as int] == sink);
                            if sink == here {
                                assert(idents(start)[j] == sink);
                                assert(j == at->0);
                            }
                            if j == at->0 {
                                assert(sink == here);
                                assert(after[j].bay().inputs() == now[j].bay().inputs().update(
                                    sink_port as int,
                                    Some((src, src_port)),
                                ));
                            } else {
                                assert(after[j] == now[j]);
                            }
                        } else {
                            assert(after[j] == now[j]);
                        }
                    }
                }
            }
        }
        proof {
            assert(all.subrange(0, n as int) =~= all);
        }
        Ok(())
    }
}


/// What a slot holds after a round trip through a file: what it held, if
/// the module it names is in the list and has the port it names, else
/// nothing.
pub open spec fn kept_slot(modules: Seq<SynthModuleType>, slot: Option<Connection>) -> Option<
    Connection,
> {
    match slot {
        Some((src, port)) => match position(idents(modules), src) {
            Some(u) => if port < modules[u].bay().outputs().len() {
                Some((src, port))
            } else {
                None
            },
            None => None,
        },
        None => None,
    }
}

/// The connection that a connected slot stands for: from what the slot
/// names to input `port` of module `sink`.
pub open spec fn wire_to(slot: Option<Connection>, sink: ModuleId, port: u8) -> Wire {
    match slot {
        Some((src, src_port)) => (src, src_port, sink, port),
        None => (0, 0, sink, port),
    }
}

/// The connection `wire` ends at input `port` of module `sink`.
pub open spec fn ends_at(wire: Wire, sink: ModuleId, port: u8) -> bool {
    wire.2 == sink && wire.3 == port
}

/// Every connection among those of one module ends at one of its slots and
/// says what the slot holds; and there is one for every connected slot.
proof fn lemma_wires_of(sink: ModuleId, slots: Seq<Option<Connection>>)
    requires
        slots.len() <= 255,
    ensures
        forall|k: int|
            0 <= k < wires_of(sink, slots).len() ==> {
                let wire = #[trigger] wires_of(sink, slots)[k];
                &&& wire.2 == sink
                &&& wire.3 < slots.len()
                &&& slots[wire.3 as int] == Some((wire.0, wire.1))
            },
        forall|port: int|
            0 <= port < slots.len() && (#[trigger] slots[port]) is Some ==> wires_of(
                sink,
                slots,
            ).contains(wire_to(slots[port], sink, port as u8)),
    decreases slots.len(),
{
    let all = wires_of(sink, slots);
    if slots.len() > 0 {
        let front = slots.drop_last();
        let rest = wires_of(sink, front);
        lemma_wires_of(sink, front);
        assert forall|k: int| 0 <= k < all.len() implies {
            let wire = #[trigger] all[k];
            &&& wire.2 == sink
            &&& wire.3 < slots.len()
            &&& slots[wire.3 as int] == Some((wire.0, wire.1))
        } by {
            if k < rest.len() {
                assert(all[k] == rest[k]);
                assert(front[rest[k].3 as int] == slots[rest[k].3 as int]);
            }
        }
        assert forall|port: int| 0 <= port < slots.len() && (#[trigger] slots[port]) is Some implies all.contains(
            wire_to(slots[port], sink, port as u8),
        ) by {
            let wire = wire_to(slots[port], sink, port as u8);
            if port < front.len() {
                assert(front[port] == slots[port]);
                assert(rest.contains(wire));
                let k = choose|k: int| 0 <= k < rest.len() && rest[k] == wire;
                assert(all[k] == wire);
            } else {
                assert(all[all.len() - 1] == wire);
            }
        }
    }
}

/// Every connection among those of a list of modules ends at a slot of one
/// of them and says what the slot holds; and there is one for every
/// connected slot.
pub proof fn lemma_wires(modules: Seq<SynthModuleType>)
    requires
        all_wf(modules),
    ensures
        forall|k: int|
            0 <= k < wires(modules).len() ==> {
                let wire = #[trigger] wires(modules)[k];
                exists|i: int|
                    0 <= i < modules.len() && (#[trigger] modules[i]).bay().ident() == wire.2
                        && wire.3 < modules[i].bay().inputs().len() && modules[i].bay().inputs()[wire.3 as int]
                        == Some((wire.0, wire.1))
            },
        forall|i: int, port: int|
            0 <= i < modules.len() && 0 <= port < modules[i].bay().inputs().len() && (
            #[trigger] modules[i].bay().inputs()[port]) is Some ==> wires(modules).contains(
                wire_to(modules[i].bay().inputs()[port], modules[i].bay().ident(), port as u8),
            ),
    decreases modules.len(),
{
    let all = wires(modules);
    if modules.len() > 0 {
        let front = modules.drop_last();
        let last = modules.last();
        let rest = wires(front);
        let tail = wires_of(last.bay().ident(), last.bay().inputs());
        assert(forall|i: int| 0 <= i < front.len() ==> front[i] == modules[i]);
        lemma_wires(front);
        assert(last.wf());
        last.lemma_settings(&last);
        lemma_wires_of(last.bay().ident(), last.bay().inputs());
        assert forall|k: int| 0 <= k < all.len() implies {
            let wire = #[trigger] all[k];
            exists|i: int|
                0 <= i < modules.len() && (#[trigger] modules[i]).bay().ident() == wire.2 && wire.3
                    < modules[i].bay().inputs().len() && modules[i].bay().inputs()[wire.3 as int]
                    == Some((wire.0, wire.1))
        } by {
            let wire = all[k];
            if k < rest.len() {
                assert(all[k] == rest[k]);
                let i = choose|i: int|
                    0 <= i < front.len() && (#[trigger] front[i]).bay().ident() == wire.2 && wire.3
                        < front[i].bay().inputs().len() && front[i].bay().inputs()[wire.3 as int]
                        == Some((wire.0, wire.1));
                assert(modules[i] == front[i]);
            } else {
                assert(all[k] == tail[k - rest.len()]);
                assert(modules[modules.len() - 1] == last);
            }
        }
        assert forall|i: int, port: int|
            0 <= i < modules.len() && 0 <= port < modules[i].bay().inputs().len() && (
            #[trigger] modules[i].bay().inputs()[port]) is Some implies all.contains(
            wire_to(modules[i].bay().inputs()[port], modules[i].bay().ident(), port as u8),
        ) by {
            let wire = wire_to(
                modules[i].bay().inputs()[port],
                modules[i].bay().ident(),
                port as u8,
            );
            if i < front.len() {
                assert(front[i] == modules[i]);
                assert(rest.contains(wire));
                let k = choose|k: int| 0 <= k < rest.len() && rest[k] == wire;
                assert(all[k] == wire);
            } else {
                assert(tail.contains(wire));
                let k = choose|k: int| 0 <= k < tail.len() && tail[k] == wire;
                assert(all[rest.len() + k] == wire);
            }
        }
    }
}

/// Where all connections that end at a slot say the same, the slot gets
/// what they say if there is one of them and it can be made, and nothing
/// else.
pub proof fn lemma_first_wire(
    list: Seq<Wire>,
    modules: Seq<SynthModuleType>,
    sink: ModuleId,
    port: u8,
    src: ModuleId,
    src_port: u8,
)
    requires
        forall|k: int|
            0 <= k < list.len() && ends_at(#[trigger] list[k], sink, port) ==> list[k] == (
                src,
                src_port,
                sink,
                port,
            ),
    ensures
        first_wire(list, modules, sink, port) == if list.contains((src, src_port, sink, port))
            && can_be_made(modules, (src, src_port, sink, port)) {
            Some((src, src_port))
        } else {
            None
        },
    decreases list.len(),
{
    let wire = (src, src_port, sink, port);
    if list.len() > 0 {
        let rest = list.drop_first();
        assert forall|k: int| 0 <= k < rest.len() && ends_at(#[trigger] rest[k], sink, port) implies rest[k]
            == wire by {
            assert(rest[k] == list[k + 1]);
        }
        lemma_first_wire(rest, modules, sink, port, src, src_port);
        if rest.contains(wire) {
            let k = choose|k: int| 0 <= k < rest.len() && rest[k] == wire;
            assert(list[k + 1] == wire);
        }
        if list.contains(wire) && list[0] != wire {
            let k = choose|k: int| 0 <= k < list.len() && list[k] == wire;
            assert(rest[k - 1] == wire);
        }
        if ends_at(list[0], sink, port) {
            assert(list[0] == wire);
        }
    }
}

} // verus!
