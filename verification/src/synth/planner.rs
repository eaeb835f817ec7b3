//! The execution planner: orders the modules of a patch so that every module
//! runs after the modules it reads from, and decides which connections of a
//! feedback loop read the block before.

use vstd::prelude::*;

verus! {

/// The dependency lists of a graph: `graph_of(edges)[v]` lists the nodes that
/// node `v` reads from, one entry per connection.
pub open spec fn graph_of(edges: &Vec<Vec<usize>>) -> Seq<Seq<usize>> {
    Seq::new(edges.len() as nat, |v: int| edges[v]@)
}

/// Every dependency names a node of the graph.
pub open spec fn well_formed(g: Seq<Seq<usize>>) -> bool {
    forall|v: int, k: int|
        0 <= v < g.len() && 0 <= k < g[v].len() ==> (#[trigger] g[v][k]) < g.len()
}

/// Node `v` reads from node `u`.
pub open spec fn depends_on(g: Seq<Seq<usize>>, v: int, u: int) -> bool {
    0 <= v < g.len() && exists|k: int| 0 <= k < g[v].len() && #[trigger] g[v][k] == u
}

/// A chain of dependencies: each node reads from the next.
pub open spec fn is_chain(g: Seq<Seq<usize>>, p: Seq<int>) -> bool {
    &&& p.len() >= 1
    &&& forall|i: int| 0 <= i < p.len() - 1 ==> depends_on(g, #[trigger] p[i], p[i + 1])
}

/// Node `b` is among what node `a` reads from, directly or through others.
pub open spec fn reaches(g: Seq<Seq<usize>>, a: int, b: int) -> bool {
    exists|p: Seq<int>| #[trigger] is_chain(g, p) && p.len() >= 2 && p[0] == a && p.last() == b
}

/// Node `b` is `a` itself or among what `a` reads from.
pub open spec fn reaches_or_is(g: Seq<Seq<usize>>, a: int, b: int) -> bool {
    a == b || reaches(g, a, b)
}

/// The connection through which `v` reads from `u` lies on a feedback loop:
/// `u` in turn reads from `v`, or is `v`.
pub open spec fn on_cycle(g: Seq<Seq<usize>>, v: int, u: int) -> bool {
    depends_on(g, v, u) && reaches_or_is(g, u, v)
}

/// No node reads from itself, not even through others.
pub open spec fn acyclic(g: Seq<Seq<usize>>) -> bool {
    forall|a: int| !reaches(g, a, a)
}

/// Graph `h` has the nodes of `g` and no connection that `g` lacks.
pub open spec fn subgraph(h: Seq<Seq<usize>>, g: Seq<Seq<usize>>) -> bool {
    &&& h.len() == g.len()
    &&& forall|v: int, u: int| depends_on(h, v, u) ==> depends_on(g, v, u)
}

/// The number of flags that are set.
pub open spec fn count_true(flags: Seq<bool>) -> nat
    decreases flags.len(),
{
    if flags.len() == 0 {
        0
    } else {
        count_true(flags.drop_last()) + if flags.last() {
            1nat
        } else {
            0nat
        }
    }
}

proof fn lemma_count_true_bound(flags: Seq<bool>)
    ensures
        count_true(flags) <= flags.len(),
    decreases flags.len(),
{
    if flags.len() > 0 {
        lemma_count_true_bound(flags.drop_last());
    }
}

proof fn lemma_count_true_set(flags: Seq<bool>, i: int)
    requires
        0 <= i < flags.len(),
        !flags[i],
    ensures
        count_true(flags.update(i, true)) == count_true(flags) + 1,
    decreases flags.len(),
{
    let after = flags.update(i, true);
    if i == flags.len() - 1 {
        assert(after.drop_last() =~= flags.drop_last());
    } else {
        lemma_count_true_set(flags.drop_last(), i);
        assert(after.drop_last() =~= flags.drop_last().update(i, true));
    }
}

/// A chain can be extended by a dependency of its last node.
proof fn lemma_chain_push(g: Seq<Seq<usize>>, p: Seq<int>, u: int)
    requires
        is_chain(g, p),
        depends_on(g, p.last(), u),
    ensures
        is_chain(g, p.push(u)),
        p.push(u).len() == p.len() + 1,
        p.push(u)[0] == p[0],
        p.push(u).last() == u,
{
    let q = p.push(u);
    assert forall|i: int| 0 <= i < q.len() - 1 implies depends_on(g, #[trigger] q[i], q[i + 1]) by {
        if i < p.len() - 1 {
            assert(q[i] == p[i]);
            assert(q[i + 1] == p[i + 1]);
        } else {
            assert(q[i] == p.last());
        }
    }
}

/// What `b` reads from, `a` reads from through `b`.
proof fn lemma_reaches_step(g: Seq<Seq<usize>>, a: int, b: int, c: int)
    requires
        reaches_or_is(g, a, b),
        depends_on(g, b, c),
    ensures
        reaches(g, a, c),
{
    if a == b {
        let p = seq![a];
        assert(is_chain(g, p));
        lemma_chain_push(g, p, c);
        assert(is_chain(g, p.push(c)));
    } else {
        let p = choose|p: Seq<int>| #[trigger]
            is_chain(g, p) && p.len() >= 2 && p[0] == a && p.last() == b;
        lemma_chain_push(g, p, c);
        assert(is_chain(g, p.push(c)));
    }
}

/// A chain in a graph is a chain in every graph that has all its connections.
proof fn lemma_subgraph_chain(h: Seq<Seq<usize>>, g: Seq<Seq<usize>>, p: Seq<int>)
    requires
        subgraph(h, g),
        is_chain(h, p),
    ensures
        is_chain(g, p),
{
    assert forall|i: int| 0 <= i < p.len() - 1 implies depends_on(g, #[trigger] p[i], p[i + 1]) by {
        assert(depends_on(h, p[i], p[i + 1]));
    }
}

proof fn lemma_subgraph_reaches(h: Seq<Seq<usize>>, g: Seq<Seq<usize>>, a: int, b: int)
    requires
        subgraph(h, g),
        reaches(h, a, b),
    ensures
        reaches(g, a, b),
{
    let p = choose|p: Seq<int>| #[trigger]
        is_chain(h, p) && p.len() >= 2 && p[0] == a && p.last() == b;
    lemma_subgraph_chain(h, g, p);
}

/// The flagged nodes hold everything they read from, and none of them reads
/// from `target`.
spec fn closed_without(g: Seq<Seq<usize>>, target: int, flags: Seq<bool>) -> bool {
    forall|x: int, k: int|
        0 <= x < g.len() && flags[x] && 0 <= k < g[x].len() ==> (#[trigger] g[x][k]) != target
            && flags[g[x][k] as int]
}

/// A chain that starts inside a closed set of nodes stays inside it.
proof fn lemma_closed_chain(
    g: Seq<Seq<usize>>,
    target: int,
    flags: Seq<bool>,
    p: Seq<int>,
    i: int,
)
    requires
        well_formed(g),
        flags.len() == g.len(),
        closed_without(g, target, flags),
        is_chain(g, p),
        0 <= p[0] < g.len(),
        flags[p[0]],
        0 <= i < p.len(),
    ensures
        0 <= p[i] < g.len(),
        flags[p[i]],
    decreases i,
{
    if i > 0 {
        lemma_closed_chain(g, target, flags, p, i - 1);
        assert(depends_on(g, p[i - 1], p[i - 1 + 1]));
        let k = choose|k: int| 0 <= k < g[p[i - 1]].len() && #[trigger] g[p[i - 1]][k] == p[i];
        assert(flags[g[p[i - 1]][k] as int]);
    }
}

/// Nothing in a closed set that holds `target` leads back to `target`.
proof fn lemma_closed_no_cycle(g: Seq<Seq<usize>>, target: int, flags: Seq<bool>)
    requires
        well_formed(g),
        flags.len() == g.len(),
        closed_without(g, target, flags),
        0 <= target < g.len(),
        flags[target],
    ensures
        !reaches(g, target, target),
{
    if reaches(g, target, target) {
        let p = choose|p: Seq<int>| #[trigger]
            is_chain(g, p) && p.len() >= 2 && p[0] == target && p.last() == target;
        let i = p.len() - 2;
        lemma_closed_chain(g, target, flags, p, i);
        assert(depends_on(g, p[i], p[i + 1]));
        let k = choose|k: int| 0 <= k < g[p[i]].len() && #[trigger] g[p[i]][k] == p[i + 1];
        assert(g[p[i]][k] != target);
        assert(false);
    }
}

/// A vector of `n` cleared flags.
fn cleared_flags(n: usize) -> (flags: Vec<bool>)
    ensures
        flags.len() == n,
        forall|i: int| 0 <= i < n ==> !flags[i],
        count_true(flags@) == 0,
{
    let mut flags: Vec<bool> = Vec::with_capacity(n);
    let mut i: usize = 0;
    while i < n
        invariant
            i <= n,
            flags.len() == i,
            forall|j: int| 0 <= j < i ==> !flags[j],
            count_true(flags@) == 0,
        decreases n - i,
    {
        let ghost before = flags@;
        flags.push(false);
        assert(flags@.drop_last() =~= before);
        i += 1;
    }
    flags
}

/// No flag set, for `n` nodes.
pub open spec fn no_flags(n: nat) -> Seq<bool> {
    Seq::new(n, |i: int| false)
}

/// The search for a node that closes a loop through `module`, from where
/// it stands: `queue` holds the nodes still to be looked at, the next one
/// first, `seen` marks the nodes looked at, and `left` is the number of
/// nodes not looked at yet.
///
/// A node that was looked at before is passed over. A node that reads from
/// `module` is the one searched for. Of any other node, what it reads from
/// goes to the end of the queue, in the order of its inputs.
pub open spec fn first_reader(
    g: Seq<Seq<usize>>,
    module: usize,
    queue: Seq<usize>,
    seen: Seq<bool>,
    left: nat,
) -> Option<usize>
    decreases left, queue.len(),
{
    if queue.len() == 0 {
        None
    } else {
        let cur = queue[0];
        if cur >= g.len() || cur >= seen.len() || seen[cur as int] {
            first_reader(g, module, queue.drop_first(), seen, left)
        } else if g[cur as int].contains(module) {
            Some(cur)
        } else if left == 0 {
            None
        } else {
            first_reader(
                g,
                module,
                queue.drop_first() + g[cur as int],
                seen.update(cur as int, true),
                (left - 1) as nat,
            )
        }
    }
}

/// The node that closes a loop through `module`: the first node that reads
/// from `module`, in a search that starts at `module` and goes breadth
/// first through what the nodes read from, in the order of their inputs.
pub open spec fn loop_closer(g: Seq<Seq<usize>>, module: usize) -> Option<usize> {
    first_reader(g, module, seq![module], no_flags(g.len()), g.len())
}

/// Searches what `module` reads from, directly and through others, for a node
/// that reads from `module`: breadth first, in the order of the inputs.
/// Such a node closes a feedback loop through `module`; there is one
/// exactly if `module` lies on a loop.
pub fn is_loop(module: usize, edges: &Vec<Vec<usize>>) -> (found: Option<usize>)
    requires
        well_formed(graph_of(edges)),
        module < edges.len(),
    ensures
        found == loop_closer(graph_of(edges), module),
        found is Some <==> reaches(graph_of(edges), module as int, module as int),
        found matches Some(from) ==> {
            &&& from < edges.len()
            &&& reaches_or_is(graph_of(edges), module as int, from as int)
            &&& depends_on(graph_of(edges), from as int, module as int)
        },
{
    let n = edges.len();
    let ghost g = graph_of(edges);
    let mut to_search: Vec<usize> = Vec::new();
    to_search.push(module);
    let mut visited = cleared_flags(n);
    let mut head: usize = 0;
    let ghost mut left: nat = n as nat;
    proof {
        assert(visited@ =~= no_flags(n as nat));
        assert(to_search@ =~= seq![module]);
        assert(to_search@.subrange(0, 1) =~= seq![module]);
    }
    while head < to_search.len()
        invariant
            n == edges.len(),
            g == graph_of(edges),
            well_formed(g),
            module < n,
            visited.len() == n,
            left + count_true(visited@) == n,
            first_reader(
                g,
                module,
                to_search@.subrange(head as int, to_search.len() as int),
                visited@,
                left,
            ) == loop_closer(g, module),
            to_search.len() >= 1,
            to_search[0] == module,
            head <= to_search.len(),
            forall|j: int|
                0 <= j < to_search.len() ==> (#[trigger] to_search[j]) < n && reaches_or_is(
                    g,
                    module as int,
                    to_search[j] as int,
                ),
            forall|j: int| 0 <= j < head ==> visited[(#[trigger] to_search[j]) as int],
            forall|x: int, k: int|
                0 <= x < n && visited[x] && 0 <= k < g[x].len() ==> (#[trigger] g[x][k]) != module
                    && to_search@.contains(g[x][k]),
        decreases n - count_true(visited@), to_search.len() - head,
    {
        let cur = to_search[head];
        let ghost queue = to_search@.subrange(head as int, to_search.len() as int);
        let ghost rest = to_search@.subrange(head + 1, to_search.len() as int);
        let ghost seen = visited@;
        let ghost waiting = to_search@;
        proof {
            assert(queue[0] == cur);
            assert(queue.drop_first() =~= rest);
        }
        head += 1;
        if !visited[cur] {
            proof {
                lemma_count_true_set(visited@, cur as int);
                lemma_count_true_bound(visited@.update(cur as int, true));
            }
            visited.set(cur, true);
            let deps = &edges[cur];
            assert(deps@ == g[cur as int]);
            let mut k: usize = 0;
            while k < deps.len()
                invariant
                    n == edges.len(),
                    g == graph_of(edges),
                    well_formed(g),
                    module < n,
                    cur < n,
                    deps@ == g[cur as int],
                    visited.len() == n,
                    visited[cur as int],
                    k <= deps.len(),
                    to_search.len() >= 1,
                    to_search[0] == module,
                    head <= to_search.len(),
                    reaches_or_is(g, module as int, cur as int),
                    to_search@ == waiting + g[cur as int].subrange(0, k as int),
                    !seen[cur as int],
                    seen.len() == n,
                    queue.len() > 0,
                    queue[0] == cur,
                    first_reader(g, module, queue, seen, left) == loop_closer(g, module),
                    forall|j: int|
                        0 <= j < to_search.len() ==> (#[trigger] to_search[j]) < n
                            && reaches_or_is(g, module as int, to_search[j] as int),
                    forall|j: int| 0 <= j < head ==> visited[(#[trigger] to_search[j]) as int],
                    forall|x: int, i: int|
                        0 <= x < n && visited[x] && x != cur && 0 <= i < g[x].len() ==> (
                        #[trigger] g[x][i]) != module && to_search@.contains(g[x][i]),
                    forall|i: int|
                        0 <= i < k ==> (#[trigger] g[cur as int][i]) != module
                            && to_search@.contains(g[cur as int][i]),
                decreases deps.len() - k,
            {
                let dep = deps[k];
                assert(dep == g[cur as int][k as int]);
                assert(depends_on(g, cur as int, dep as int));
                if dep == module {
                    proof {
                        lemma_reaches_step(g, module as int, cur as int, module as int);
                        assert(g[cur as int].contains(module));
                    }
                    return Some(cur);
                }
                let ghost before = to_search@;
                to_search.push(dep);
                proof {
                    assert(to_search@ =~= waiting + g[cur as int].subrange(0, k + 1));
                    lemma_reaches_step(g, module as int, cur as int, dep as int);
                    assert forall|d: usize| before.contains(d) implies to_search@.contains(d) by {
                        let j = choose|j: int| 0 <= j < before.len() && before[j] == d;
                        assert(to_search@[j] == d);
                    }
                    assert(to_search@[before.len() as int] == dep);
                }
                k += 1;
            }
            proof {
                assert(g[cur as int].subrange(0, k as int) =~= g[cur as int]);
                if g[cur as int].contains(module) {
                    let i = choose|i: int| 0 <= i < g[cur as int].len() && g[cur as int][i] == module;
                    assert(g[cur as int][i] != module);
                }
                lemma_count_true_bound(visited@);
                assert(left > 0);
                assert(to_search@.subrange(head as int, to_search.len() as int) =~= rest
                    + g[cur as int]);
                assert(visited@ =~= seen.update(cur as int, true));
                left = (left - 1) as nat;
            }
        }
    }
    proof {
        assert forall|x: int, k: int|
            0 <= x < g.len() && visited@[x] && 0 <= k < g[x].len() implies (#[trigger] g[x][k])
            != module && visited@[g[x][k] as int] by {
            let d = g[x][k];
            assert(to_search@.contains(d));
            let j = choose|j: int| 0 <= j < to_search@.len() && to_search@[j] == d;
            assert(visited[to_search[j] as int]);
        }
        assert(visited[to_search[0] as int]);
        lemma_closed_no_cycle(g, module as int, visited@);
        assert(to_search@.subrange(head as int, to_search.len() as int).len() == 0);
    }
    None
}


/// The number of connections in the graph.
pub open spec fn total_edges(g: Seq<Seq<usize>>) -> nat
    decreases g.len(),
{
    if g.len() == 0 {
        0
    } else {
        total_edges(g.drop_last()) + g.last().len()
    }
}

proof fn lemma_total_edges_update(g: Seq<Seq<usize>>, v: int, list: Seq<usize>)
    requires
        0 <= v < g.len(),
    ensures
        total_edges(g.update(v, list)) + g[v].len() == total_edges(g) + list.len(),
    decreases g.len(),
{
    let after = g.update(v, list);
    if v == g.len() - 1 {
        assert(after.drop_last() =~= g.drop_last());
    } else {
        lemma_total_edges_update(g.drop_last(), v, list);
        assert(after.drop_last() =~= g.drop_last().update(v, list));
    }
}

/// The list without the entries that are in `gone`, the others in their
/// order.
pub open spec fn without(list: Seq<usize>, gone: Set<usize>) -> Seq<usize>
    decreases list.len(),
{
    if list.len() == 0 {
        Seq::empty()
    } else {
        let rest = without(list.drop_last(), gone);
        if gone.contains(list.last()) {
            rest
        } else {
            rest.push(list.last())
        }
    }
}

/// Taking nothing out leaves a list as it is, and taking entries out in
/// two steps is taking them out in one.
proof fn lemma_without(list: Seq<usize>, first: Set<usize>, second: Set<usize>)
    ensures
        without(list, Set::empty()) == list,
        without(without(list, first), second) == without(list, first.union(second)),
    decreases list.len(),
{
    if list.len() > 0 {
        let front = list.drop_last();
        lemma_without(front, first, second);
        assert(without(list, Set::empty()) =~= list);
        if !first.contains(list.last()) {
            let once = without(list, first);
            assert(once.drop_last() =~= without(front, first));
            assert(once.last() == list.last());
        }
    }
}

/// The list without every entry equal to `m`, the others in their order.
fn remove_all(list: &Vec<usize>, m: usize) -> (kept: Vec<usize>)
    ensures
        kept@ == without(list@, set![m]),
        forall|x: usize| kept@.contains(x) <==> list@.contains(x) && x != m,
        kept.len() <= list.len(),
        list@.contains(m) ==> kept.len() < list.len(),
{
    let ghost keep = |x: usize| x != m;
    let mut kept: Vec<usize> = Vec::new();
    let mut i: usize = 0;
    while i < list.len()
        invariant
            i <= list.len(),
            keep == |x: usize| x != m,
            kept@ == list@.subrange(0, i as int).filter(keep),
            kept@ == without(list@.subrange(0, i as int), set![m]),
            kept.len() <= i,
            list@.subrange(0, i as int).contains(m) ==> kept.len() < i,
        decreases list.len() - i,
    {
        let ghost prefix = list@.subrange(0, i as int);
        let ghost next = list@.subrange(0, i + 1);
        proof {
            assert(next.drop_last() =~= prefix);
            assert(next.last() == list[i as int]);
            reveal(Seq::filter);
            if next.contains(m) && list[i as int] != m {
                let j = choose|j: int| 0 <= j < next.len() && next[j] == m;
                assert(prefix[j] == m);
            }
        }
        if list[i] != m {
            kept.push(list[i]);
        }
        i += 1;
    }
    proof {
        assert(list@.subrange(0, list.len() as int) =~= list@);
        assert forall|x: usize| kept@.contains(x) <==> list@.contains(x) && x != m by {
            if kept@.contains(x) {
                list@.lemma_filter_contains_rev(keep, x);
            }
            if list@.contains(x) && x != m {
                let j = choose|j: int| 0 <= j < list@.len() && list@[j] == x;
                list@.lemma_filter_contains(keep, j);
            }
        }
    }
    kept
}

/// Graph `h` is graph `g` with some of the nodes taken out of each list of
/// dependencies: what stays, stays in its order, and a node leaves a list
/// with all its entries.
pub open spec fn thinned(g: Seq<Seq<usize>>, h: Seq<Seq<usize>>) -> bool {
    exists|gone: Seq<Set<usize>>|
        #![trigger gone.len()]
        gone.len() == g.len() && h.len() == g.len() && forall|v: int|
            0 <= v < g.len() ==> #[trigger] h[v] == without(g[v], gone[v])
}

/// Graph `g` with every loop through node `m` opened: as long as a node
/// closes a loop through `m`, that node is made to read from `m` no more.
/// `budget` bounds the number of connections removed; the number of
/// connections of the graph is enough.
pub open spec fn unlooped(g: Seq<Seq<usize>>, m: usize, budget: nat) -> Seq<Seq<usize>>
    decreases budget,
{
    match loop_closer(g, m) {
        Some(from) => if budget == 0 || from >= g.len() {
            g
        } else {
            unlooped(
                g.update(from as int, without(g[from as int], set![m])),
                m,
                (budget - 1) as nat,
            )
        },
        None => g,
    }
}

/// The walk that opens the loops of a graph, from where it stands: `stack`
/// holds the nodes still to be searched, the next one last, `seen` marks
/// the nodes searched, and `left` is the number of nodes not searched yet.
///
/// A node that was searched before is passed over. Of any other node, what
/// it reads from goes on top of the stack, in the order of its inputs, and
/// then every loop through the node is opened.
pub open spec fn opened(
    g: Seq<Seq<usize>>,
    stack: Seq<usize>,
    seen: Seq<bool>,
    left: nat,
) -> Seq<Seq<usize>>
    decreases left, stack.len(),
{
    if stack.len() == 0 {
        g
    } else {
        let m = stack.last();
        if m >= g.len() || m >= seen.len() || seen[m as int] {
            opened(g, stack.drop_last(), seen, left)
        } else if left == 0 {
            g
        } else {
            opened(
                unlooped(g, m, total_edges(g)),
                stack.drop_last() + g[m as int],
                seen.update(m as int, true),
                (left - 1) as nat,
            )
        }
    }
}

/// The nodes of a graph of `n` nodes in their order, and `output` after
/// them if it is one of them: the stack that the walk starts from, so that
/// it searches `output` first, then what `output` reads from, and the
/// other nodes from the last to the first.
pub open spec fn walk_start(n: nat, output: usize) -> Seq<usize> {
    Seq::new(n, |i: int| i as usize) + if output < n {
        seq![output]
    } else {
        Seq::empty()
    }
}

/// Graph `g` with its feedback loops opened, for the plan that is made for
/// node `output`.
#[verifier::opaque]
pub open spec fn loops_opened(g: Seq<Seq<usize>>, output: usize) -> Seq<Seq<usize>> {
    opened(g, walk_start(g.len(), output), no_flags(g.len()), g.len())
}

/// Removes connections until no feedback loop is left. Every node is searched
/// for a loop through it, first `output` and what it reads from, then the
/// others from the last to the first; a loop is opened at the connection that
/// closes it, that is where a node found on the way reads from the node
/// searched.
///
/// Only connections that lie on a loop are removed, and the graph that
/// results has no loop.
pub fn break_cycles(output: usize, edges: Vec<Vec<usize>>) -> (kept: Vec<Vec<usize>>)
    requires
        well_formed(graph_of(&edges)),
    ensures
        graph_of(&kept) == loops_opened(graph_of(&edges), output),
        well_formed(graph_of(&kept)),
        subgraph(graph_of(&kept), graph_of(&edges)),
        thinned(graph_of(&edges), graph_of(&kept)),
        acyclic(graph_of(&kept)),
        forall|v: int, u: int|
            depends_on(graph_of(&edges), v, u) && !depends_on(graph_of(&kept), v, u) ==> on_cycle(
                graph_of(&edges),
                v,
                u,
            ),
{
    let ghost g = graph_of(&edges);
    let n = edges.len();
    let mut edges = edges;
    let ghost mut gone: Seq<Set<usize>> = Seq::new(n as nat, |v: int| Set::empty());
    proof {
        assert forall|v: int| 0 <= v < n implies #[trigger] graph_of(&edges)[v] == without(
            g[v],
            gone[v],
        ) by {
            lemma_without(g[v], Set::empty(), Set::empty());
        }
    }
    let mut visited = cleared_flags(n);
    let mut stack: Vec<usize> = Vec::new();
    let mut i: usize = 0;
    while i < n
        invariant
            i <= n,
            stack.len() == i,
            forall|j: int| 0 <= j < i ==> stack[j] == j,
        decreases n - i,
    {
        stack.push(i);
        i += 1;
    }
    if output < n {
        stack.push(output);
    }
    assert forall|x: usize| x < n implies stack@.contains(x) by {
        assert(stack@[x as int] == x);
    }
    let ghost mut left: nat = n as nat;
    proof {
        reveal(loops_opened);
        assert(stack@ =~= walk_start(n as nat, output));
        assert(visited@ =~= no_flags(n as nat));
    }
    while stack.len() > 0
        invariant
            n == edges.len(),
            n == g.len(),
            left + count_true(visited@) == n,
            opened(graph_of(&edges), stack@, visited@, left) == loops_opened(g, output),
            well_formed(graph_of(&edges)),
            subgraph(graph_of(&edges), g),
            gone.len() == n,
            forall|v: int| 0 <= v < n ==> #[trigger] graph_of(&edges)[v] == without(g[v], gone[v]),
            forall|v: int, u: int|
                depends_on(g, v, u) && !depends_on(graph_of(&edges), v, u) ==> on_cycle(g, v, u),
            visited.len() == n,
            forall|x: int| 0 <= x < n && visited[x] ==> !reaches(graph_of(&edges), x, x),
            forall|j: int| 0 <= j < stack.len() ==> (#[trigger] stack[j]) < n,
            forall|x: usize| x < n ==> visited[x as int] || stack@.contains(x),
        decreases n - count_true(visited@), stack.len(),
    {
        let ghost before = stack@;
        let ghost seen = visited@;
        let ghost start = graph_of(&edges);
        let m = stack.pop().unwrap();
        assert(m == before.last());
        assert(stack@ =~= before.drop_last());
        assert forall|x: usize| x < n && x != m implies visited[x as int] || stack@.contains(
            x,
        ) by {
            if !visited[x as int] {
                let j = choose|j: int| 0 <= j < before.len() && before[j] == x;
                assert(stack@[j] == x);
            }
        }
        if !visited[m] {
            proof {
                lemma_count_true_set(visited@, m as int);
                lemma_count_true_bound(visited@.update(m as int, true));
            }
            visited.set(m, true);
            let ghost edges_before = edges;
            let ghost popped = stack@;
            let mut k: usize = 0;
            while k < edges[m as usize].len()
                invariant
                    n == edges.len(),
                    m < n,
                    stack@ == popped + graph_of(&edges)[m as int].subrange(0, k as int),
                    well_formed(graph_of(&edges)),
                    edges == edges_before,
                    k <= edges[m as int].len(),
                    visited.len() == n,
                    visited[m as int],
                    forall|j: int| 0 <= j < stack.len() ==> (#[trigger] stack[j]) < n,
                    forall|x: usize| x < n ==> visited[x as int] || stack@.contains(x),
                decreases edges[m as int].len() - k,
            {
                let dep = edges[m][k];
                assert(dep == graph_of(&edges)[m as int][k as int]);
                let ghost pushed = stack@;
                stack.push(dep);
                assert(stack@ =~= popped + graph_of(&edges)[m as int].subrange(0, k + 1));
                assert forall|x: usize| x < n implies visited[x as int] || stack@.contains(
                    x,
                ) by {
                    if !visited[x as int] {
                        let j = choose|j: int| 0 <= j < pushed.len() && pushed[j] == x;
                        assert(stack@[j] == x);
                    }
                }
                k += 1;
            }
            let ghost mut budget: nat = total_edges(start);
            proof {
                assert(start[m as int].subrange(0, k as int) =~= start[m as int]);
                lemma_count_true_bound(visited@);
            }
            let mut found = is_loop(m, &edges);
            while found.is_some()
                invariant
                    n == edges.len(),
                    n == g.len(),
                    m < n,
                    found == loop_closer(graph_of(&edges), m),
                    budget >= total_edges(graph_of(&edges)),
                    unlooped(graph_of(&edges), m, budget) == unlooped(start, m, total_edges(start)),
                    well_formed(graph_of(&edges)),
                    subgraph(graph_of(&edges), g),
                    gone.len() == n,
                    forall|v: int|
                        0 <= v < n ==> #[trigger] graph_of(&edges)[v] == without(g[v], gone[v]),
                    forall|v: int, u: int|
                        depends_on(g, v, u) && !depends_on(graph_of(&edges), v, u) ==> on_cycle(
                            g,
                            v,
                            u,
                        ),
                    forall|x: int|
                        0 <= x < n && x != m && visited[x] ==> !reaches(graph_of(&edges), x, x),
                    found is Some <==> reaches(graph_of(&edges), m as int, m as int),
                    found matches Some(from) ==> {
                        &&& from < n
                        &&& reaches_or_is(graph_of(&edges), m as int, from as int)
                        &&& depends_on(graph_of(&edges), from as int, m as int)
                    },
                decreases total_edges(graph_of(&edges)),
            {
                let from = found.unwrap();
                let ghost h = graph_of(&edges);
                let shorter = remove_all(&edges[from], m);
                proof {
                    let k = choose|k: int| 0 <= k < h[from as int].len() && #[trigger] h[from as int][k] == m;
                    assert(edges[from as int]@[k] == m);
                    assert(edges[from as int]@.contains(m));
                    lemma_total_edges_update(h, from as int, shorter@);
                }
                edges.set(from, shorter);
                proof {
                    let h2 = graph_of(&edges);
                    assert(h2 =~= h.update(from as int, shorter@));
                    assert(budget > 0);
                    budget = (budget - 1) as nat;
                    lemma_without(g[from as int], gone[from as int], set![m]);
                    gone = gone.update(from as int, gone[from as int].union(set![m]));
                    assert forall|v: int| 0 <= v < n implies #[trigger] h2[v] == without(
                        g[v],
                        gone[v],
                    ) by {
                        if v != from {
                            assert(h2[v] == h[v]);
                        }
                    }
                    assert forall|v: int, u: int| depends_on(h2, v, u) implies depends_on(
                        h,
                        v,
                        u,
                    ) by {
                        let k = choose|k: int| 0 <= k < h2[v].len() && #[trigger] h2[v][k] == u;
                        if v == from {
                            assert(shorter@.contains(h2[v][k]));
                            let k0 = choose|k0: int|
                                0 <= k0 < h[v].len() && h[v][k0] == h2[v][k];
                            assert(h[v][k0] == u);
                        } else {
                            assert(h[v][k] == u);
                        }
                    }
                    assert(subgraph(h2, h));
                    assert forall|v: int, k: int|
                        0 <= v < h2.len() && 0 <= k < h2[v].len() implies (#[trigger] h2[v][k])
                        < h2.len() by {
                        assert(depends_on(h2, v, h2[v][k] as int));
                        assert(depends_on(h, v, h2[v][k] as int));
                    }
                    assert forall|v: int, u: int|
                        depends_on(g, v, u) && !depends_on(h2, v, u) implies on_cycle(
                        g,
                        v,
                        u,
                    ) by {
                        if depends_on(h, v, u) {
                            let k = choose|k: int| 0 <= k < h[v].len() && #[trigger] h[v][k] == u;
                            if v != from {
                                assert(h2[v][k] == u);
                            } else if u != m {
                                assert(h[v].contains(h[v][k]));
                                assert(shorter@.contains(h[v][k]));
                                let k2 = choose|k2: int|
                                    0 <= k2 < shorter@.len() && shorter@[k2] == h[v][k];
                                assert(h2[v][k2] == u);
                            } else {
                                if m != from {
                                    lemma_subgraph_reaches(h, g, m as int, from as int);
                                }
                            }
                        }
                    }
                    assert forall|x: int| 0 <= x < n && x != m && visited[x] implies !reaches(
                        h2,
                        x,
                        x,
                    ) by {
                        if reaches(h2, x, x) {
                            lemma_subgraph_reaches(h2, h, x, x);
                        }
                    }
                }
                found = is_loop(m, &edges);
            }
            proof {
                assert(visited@ =~= seen.update(m as int, true));
                assert(graph_of(&edges) == unlooped(start, m, total_edges(start)));
                left = (left - 1) as nat;
            }
        }
    }
    proof {
        let h = graph_of(&edges);
        assert(gone.len() == g.len() && h.len() == g.len() && forall|v: int|
            0 <= v < g.len() ==> #[trigger] h[v] == without(g[v], gone[v]));
        assert forall|a: int| !reaches(h, a, a) by {
            if reaches(h, a, a) {
                let p = choose|p: Seq<int>| #[trigger]
                    is_chain(h, p) && p.len() >= 2 && p[0] == a && p.last() == a;
                assert(depends_on(h, p[0], p[1]));
                assert(stack@.len() == 0);
                assert(!stack@.contains(a as usize));
            }
        }
    }
    edges
}


/// Node `x` stands in the plan before position `k`.
pub open spec fn scheduled_before(plan: Seq<usize>, k: int, x: int) -> bool {
    exists|i: int| 0 <= i < k && i < plan.len() && #[trigger] plan[i] == x
}

/// Node `v` can take position `k` of the plan: it does not stand before `k`,
/// and everything it reads from does.
pub open spec fn ready(g: Seq<Seq<usize>>, plan: Seq<usize>, k: int, v: int) -> bool {
    &&& 0 <= v < g.len()
    &&& !scheduled_before(plan, k, v)
    &&& forall|j: int|
        0 <= j < g[v].len() ==> scheduled_before(plan, k, (#[trigger] g[v][j]) as int)
}

/// The plan lists the nodes of `g` so that each position holds the first
/// node, in the order of the graph, that can take it.
pub open spec fn stable_order(g: Seq<Seq<usize>>, plan: Seq<usize>) -> bool {
    &&& plan.len() == g.len()
    &&& forall|k: int| 0 <= k < plan.len() ==> ready(g, plan, k, (#[trigger] plan[k]) as int)
    &&& forall|k: int, v: int|
        0 <= k < plan.len() && 0 <= v < plan[k] ==> !#[trigger] ready(g, plan, k, v)
}

/// Node `v` is not flagged, and everything it reads from is.
#[verifier::opaque]
spec fn unblocked(g: Seq<Seq<usize>>, flags: Seq<bool>, v: int) -> bool {
    &&& 0 <= v < g.len()
    &&& !flags[v]
    &&& forall|j: int| 0 <= j < g[v].len() ==> flags[(#[trigger] g[v][j]) as int]
}

proof fn lemma_count_true_full(flags: Seq<bool>)
    requires
        forall|i: int| 0 <= i < flags.len() ==> flags[i],
    ensures
        count_true(flags) == flags.len(),
    decreases flags.len(),
{
    if flags.len() > 0 {
        lemma_count_true_full(flags.drop_last());
    }
}

/// Among more than `n` nodes below `n`, one occurs twice.
proof fn lemma_pigeonhole(p: Seq<int>, n: int)
    requires
        p.len() > n >= 0,
        forall|i: int| 0 <= i < p.len() ==> 0 <= #[trigger] p[i] < n,
    ensures
        exists|i: int, j: int| 0 <= i < j < p.len() && p[i] == p[j],
{
    if p.no_duplicates() {
        p.unique_seq_to_set();
        vstd::set_lib::lemma_int_range(0, n);
        assert(p.to_set().subset_of(vstd::set_lib::set_int_range(0, n))) by {
            assert forall|x: int| p.to_set().contains(x) implies vstd::set_lib::set_int_range(
                0,
                n,
            ).contains(x) by {
                let i = choose|i: int| 0 <= i < p.len() && p[i] == x;
                assert(0 <= p[i] < n);
            }
        }
        vstd::set_lib::lemma_len_subset(p.to_set(), vstd::set_lib::set_int_range(0, n));
        assert(false);
    } else {
        let (i, j) = choose|i: int, j: int|
            0 <= i < p.len() && 0 <= j < p.len() && i != j && p[i] == p[j];
        if i < j {
            assert(0 <= i < j < p.len() && p[i] == p[j]);
        } else {
            assert(0 <= j < i < p.len() && p[j] == p[i]);
        }
    }
}

/// Where every node that is not flagged reads from another such node, a
/// chain of any length runs through them.
proof fn lemma_descend(g: Seq<Seq<usize>>, flags: Seq<bool>, x: int, len: nat) -> (p: Seq<int>)
    requires
        well_formed(g),
        flags.len() == g.len(),
        0 <= x < g.len(),
        !flags[x],
        forall|v: int| 0 <= v < g.len() && !flags[v] ==> !unblocked(g, flags, v),
    ensures
        is_chain(g, p),
        p.len() == len + 1,
        p[0] == x,
        forall|i: int| 0 <= i < p.len() ==> 0 <= #[trigger] p[i] < g.len() && !flags[p[i]],
    decreases len,
{
    if len == 0 {
        seq![x]
    } else {
        reveal(unblocked);
        let q = lemma_descend(g, flags, x, (len - 1) as nat);
        let last = q.last();
        assert(0 <= q[q.len() - 1] < g.len() && !flags[q[q.len() - 1]]);
        assert(!unblocked(g, flags, last));
        let j = choose|j: int| 0 <= j < g[last].len() && !flags[(#[trigger] g[last][j]) as int];
        let next = g[last][j] as int;
        assert(depends_on(g, last, next));
        lemma_chain_push(g, q, next);
        let p = q.push(next);
        assert forall|i: int| 0 <= i < p.len() implies 0 <= #[trigger] p[i] < g.len()
            && !flags[p[i]] by {
            if i < q.len() {
                assert(p[i] == q[i]);
            }
        }
        p
    }
}

/// A part of a chain is a chain.
proof fn lemma_chain_part(g: Seq<Seq<usize>>, p: Seq<int>, i: int, j: int)
    requires
        is_chain(g, p),
        0 <= i <= j < p.len(),
    ensures
        is_chain(g, p.subrange(i, j + 1)),
{
    let q = p.subrange(i, j + 1);
    assert forall|k: int| 0 <= k < q.len() - 1 implies depends_on(g, #[trigger] q[k], q[k + 1]) by {
        assert(q[k] == p[i + k]);
        assert(q[k + 1] == p[i + k + 1]);
        assert(depends_on(g, p[i + k], p[i + k + 1]));
    }
}

/// In a graph without loops, as long as a node is not flagged, one of them
/// reads only from flagged nodes.
proof fn lemma_exists_unblocked(g: Seq<Seq<usize>>, flags: Seq<bool>)
    requires
        well_formed(g),
        acyclic(g),
        flags.len() == g.len(),
        exists|x: int| 0 <= x < g.len() && !flags[x],
    ensures
        exists|v: int| unblocked(g, flags, v),
{
    if forall|v: int| 0 <= v < g.len() && !flags[v] ==> !unblocked(g, flags, v) {
        let x = choose|x: int| 0 <= x < g.len() && !flags[x];
        let p = lemma_descend(g, flags, x, g.len());
        lemma_pigeonhole(p, g.len() as int);
        let (i, j) = choose|i: int, j: int| 0 <= i < j < p.len() && p[i] == p[j];
        lemma_chain_part(g, p, i, j);
        let q = p.subrange(i, j + 1);
        assert(q[0] == p[i]);
        assert(q.last() == p[j]);
        assert(is_chain(g, q) && q.len() >= 2 && q[0] == p[i] && q.last() == p[i]);
        assert(reaches(g, p[i], p[i]));
    }
}

/// Whether node `v` is not flagged and reads only from flagged nodes.
fn is_unblocked(edges: &Vec<Vec<usize>>, flags: &Vec<bool>, v: usize) -> (yes: bool)
    requires
        well_formed(graph_of(edges)),
        flags.len() == edges.len(),
        v < edges.len(),
    ensures
        yes == unblocked(graph_of(edges), flags@, v as int),
{
    proof {
        reveal(unblocked);
    }
    if flags[v] {
        return false;
    }
    let deps = &edges[v];
    let ghost g = graph_of(edges);
    assert(deps@ == g[v as int]);
    let mut j: usize = 0;
    while j < deps.len()
        invariant
            g == graph_of(edges),
            well_formed(g),
            flags.len() == edges.len(),
            v < edges.len(),
            deps@ == g[v as int],
            j <= deps.len(),
            forall|i: int| 0 <= i < j ==> flags[(#[trigger] g[v as int][i]) as int],
        decreases deps.len() - j,
    {
        assert(deps[j as int] == g[v as int][j as int]);
        if !flags[deps[j]] {
            proof {
                reveal(unblocked);
            }
            return false;
        }
        j += 1;
    }
    proof {
        reveal(unblocked);
    }
    true
}

proof fn lemma_scheduled_before_push(plan: Seq<usize>, next: usize, k: int, x: int)
    requires
        k <= plan.len(),
    ensures
        scheduled_before(plan.push(next), k, x) == scheduled_before(plan, k, x),
{
    let longer = plan.push(next);
    if scheduled_before(plan, k, x) {
        let i = choose|i: int| 0 <= i < k && i < plan.len() && #[trigger] plan[i] == x;
        assert(longer[i] == x);
    }
    if scheduled_before(longer, k, x) {
        let i = choose|i: int| 0 <= i < k && i < longer.len() && #[trigger] longer[i] == x;
        assert(plan[i] == x);
    }
}

proof fn lemma_ready_push(g: Seq<Seq<usize>>, plan: Seq<usize>, next: usize, k: int, v: int)
    requires
        k <= plan.len(),
    ensures
        ready(g, plan.push(next), k, v) == ready(g, plan, k, v),
{
    lemma_scheduled_before_push(plan, next, k, v);
    if 0 <= v < g.len() {
        assert forall|j: int| 0 <= j < g[v].len() implies scheduled_before(
            plan.push(next),
            k,
            (#[trigger] g[v][j]) as int,
        ) == scheduled_before(plan, k, g[v][j] as int) by {
            lemma_scheduled_before_push(plan, next, k, g[v][j] as int);
        }
    }
}

/// Orders the nodes of a graph without loops so that every node comes after
/// the nodes it reads from. Each place of the order goes to the first node,
/// in the order of the graph, that is not placed yet and reads only from
/// nodes that are.
pub fn toposort(edges: &Vec<Vec<usize>>) -> (plan: Vec<usize>)
    requires
        well_formed(graph_of(edges)),
        acyclic(graph_of(edges)),
    ensures
        stable_order(graph_of(edges), plan@),
{
    let n = edges.len();
    let ghost g = graph_of(edges);
    let mut plan: Vec<usize> = Vec::new();
    let mut visited = cleared_flags(n);
    while plan.len() < n
        invariant
            n == edges.len(),
            g == graph_of(edges),
            well_formed(g),
            acyclic(g),
            visited.len() == n,
            plan.len() <= n,
            plan.len() == count_true(visited@),
            forall|x: int|
                0 <= x < n ==> (visited[x] <==> scheduled_before(plan@, plan.len() as int, x)),
            forall|k: int| 0 <= k < plan.len() ==> ready(g, plan@, k, (#[trigger] plan[k]) as int),
            forall|k: int, v: int|
                0 <= k < plan.len() && 0 <= v < plan[k] ==> !#[trigger] ready(g, plan@, k, v),
        decreases n - plan.len(),
    {
        let mut v: usize = 0;
        let mut found = false;
        while v < n && !found
            invariant
                n == edges.len(),
                g == graph_of(edges),
                well_formed(g),
                visited.len() == n,
                v <= n,
                found ==> v < n && unblocked(g, visited@, v as int),
                forall|u: int| 0 <= u < v ==> !unblocked(g, visited@, u),
            decreases (n - v) + (if found { 0int } else { 1int }),
        {
            if is_unblocked(edges, &visited, v) {
                found = true;
            } else {
                v += 1;
            }
        }
        proof {
            reveal(unblocked);
            if !found {
                if forall|i: int| 0 <= i < n ==> visited[i] {
                    lemma_count_true_full(visited@);
                    assert(false);
                }
                lemma_exists_unblocked(g, visited@);
                let w = choose|w: int| unblocked(g, visited@, w);
                assert(!unblocked(g, visited@, w));
                assert(false);
            }
            lemma_count_true_set(visited@, v as int);
        }
        if !found {
            return plan;
        }
        let ghost before = plan@;
        let ghost len = plan.len() as int;
        let ghost flags = visited@;
        proof {
            reveal(unblocked);
            assert forall|u: int| 0 <= u < n implies (unblocked(g, visited@, u) <==> ready(
                g,
                before,
                len,
                u,
            )) by {
                assert forall|j: int| 0 <= j < g[u].len() implies (visited[(#[trigger] g[u][j]) as int]
                    <==> scheduled_before(before, len, g[u][j] as int)) by {}
            }
        }
        visited.set(v, true);
        plan.push(v);
        proof {
            assert(plan@ == before.push(v));
            assert forall|k: int, u: int| 0 <= k <= len implies ready(g, plan@, k, u) == ready(
                g,
                before,
                k,
                u,
            ) by {
                lemma_ready_push(g, before, v, k, u);
            }
            assert forall|x: int| 0 <= x < n implies (visited[x] <==> scheduled_before(
                plan@,
                plan.len() as int,
                x,
            )) by {
                if scheduled_before(plan@, len + 1, x) {
                    let i = choose|i: int|
                        0 <= i < len + 1 && i < plan@.len() && #[trigger] plan@[i] == x;
                    if i < len {
                        assert(before[i] == x);
                    }
                }
                if scheduled_before(before, len, x) {
                    let i = choose|i: int| 0 <= i < len && i < before.len() && #[trigger] before[i] == x;
                    assert(plan@[i] == x);
                }
                if x == v {
                    assert(plan@[len] == x);
                }
            }
            assert forall|k: int| 0 <= k < plan.len() implies ready(
                g,
                plan@,
                k,
                (#[trigger] plan[k]) as int,
            ) by {
                if k < len {
                    assert(plan[k] == before[k]);
                    assert(ready(g, before, k, before[k] as int));
                }
            }
            assert forall|k: int, u: int| 0 <= k < plan.len() && 0 <= u < plan[k] implies !#[trigger] ready(
                g,
                plan@,
                k,
                u,
            ) by {
                if k < len {
                    assert(plan[k] == before[k]);
                    assert(!ready(g, before, k, u));
                } else {
                    assert(!unblocked(g, flags, u));
                    assert(unblocked(g, flags, u) <==> ready(g, before, len, u));
                    assert(ready(g, plan@, len, u) == ready(g, before, len, u));
                }
            }
        }
    }
    plan
}


/// Node `x` stands somewhere in the plan.
pub open spec fn in_plan(plan: Seq<usize>, x: int) -> bool {
    exists|k: int| 0 <= k < plan.len() && #[trigger] plan[k] == x
}

/// `plan` is an execution plan for `g`, reached through the graph `kept`:
/// `kept` is `g` without some connections that lie on feedback loops, the
/// others in their order, and `plan` is the stable order of `kept`. The
/// plan that is made for a node `output` is reached through
/// `loops_opened(g, output)`.
pub open spec fn planned(g: Seq<Seq<usize>>, kept: Seq<Seq<usize>>, plan: Seq<usize>) -> bool {
    &&& well_formed(kept)
    &&& subgraph(kept, g)
    &&& thinned(g, kept)
    &&& forall|v: int, u: int|
        depends_on(g, v, u) && !depends_on(kept, v, u) ==> on_cycle(g, v, u)
    &&& stable_order(kept, plan)
}

/// A plan in stable order holds every node of the graph exactly once: it is
/// as long as the graph, names only nodes of the graph, names none twice and
/// leaves none out.
pub proof fn lemma_plan_is_permutation(g: Seq<Seq<usize>>, plan: Seq<usize>)
    requires
        stable_order(g, plan),
    ensures
        plan.len() == g.len(),
        forall|k: int| 0 <= k < plan.len() ==> (#[trigger] plan[k]) < g.len(),
        forall|i: int, j: int| 0 <= i < j < plan.len() ==> plan[i] != plan[j],
        forall|x: int| 0 <= x < g.len() ==> #[trigger] in_plan(plan, x),
{
    let n = g.len() as int;
    assert forall|k: int| 0 <= k < plan.len() implies (#[trigger] plan[k]) < g.len() by {
        assert(ready(g, plan, k, plan[k] as int));
    }
    assert forall|i: int, j: int| 0 <= i < j < plan.len() implies plan[i] != plan[j] by {
        assert(ready(g, plan, j, plan[j] as int));
        if plan[i] == plan[j] {
            assert(scheduled_before(plan, j, plan[j] as int));
        }
    }
    let q = Seq::new(plan.len(), |k: int| plan[k] as int);
    assert(q.no_duplicates());
    q.unique_seq_to_set();
    let range = vstd::set_lib::set_int_range(0, n);
    vstd::set_lib::lemma_int_range(0, n);
    assert(q.to_set().subset_of(range)) by {
        assert forall|x: int| q.to_set().contains(x) implies range.contains(x) by {
            let k = choose|k: int| 0 <= k < q.len() && q[k] == x;
            assert(plan[k] < g.len());
        }
    }
    vstd::set_lib::lemma_len_subset(q.to_set(), range);
    vstd::set_lib::lemma_subset_equality(q.to_set(), range);
    assert forall|x: int| 0 <= x < g.len() implies #[trigger] in_plan(plan, x) by {
        assert(range.contains(x));
        assert(q.to_set().contains(x));
        let k = choose|k: int| 0 <= k < q.len() && q[k] == x;
        assert(plan[k] == x);
    }
}

/// Two plans that agree before place `k` have the same nodes ready for
/// place `k`.
proof fn lemma_ready_same_prefix(
    g: Seq<Seq<usize>>,
    first: Seq<usize>,
    second: Seq<usize>,
    k: int,
    v: int,
)
    requires
        0 <= k <= first.len(),
        k <= second.len(),
        forall|i: int| 0 <= i < k ==> first[i] == second[i],
    ensures
        ready(g, first, k, v) == ready(g, second, k, v),
{
    assert forall|x: int| scheduled_before(first, k, x) == scheduled_before(second, k, x) by {
        if scheduled_before(first, k, x) {
            let i = choose|i: int| 0 <= i < k && i < first.len() && #[trigger] first[i] == x;
            assert(second[i] == x);
        }
        if scheduled_before(second, k, x) {
            let i = choose|i: int| 0 <= i < k && i < second.len() && #[trigger] second[i] == x;
            assert(first[i] == x);
        }
    }
}

/// Two plans in stable order for one graph agree up to any place.
proof fn lemma_stable_order_agrees(
    g: Seq<Seq<usize>>,
    first: Seq<usize>,
    second: Seq<usize>,
    k: int,
)
    requires
        stable_order(g, first),
        stable_order(g, second),
        0 <= k <= g.len(),
    ensures
        forall|i: int| 0 <= i < k ==> first[i] == second[i],
    decreases k,
{
    if k > 0 {
        lemma_stable_order_agrees(g, first, second, k - 1);
        let at = k - 1;
        lemma_ready_same_prefix(g, first, second, at, first[at] as int);
        lemma_ready_same_prefix(g, first, second, at, second[at] as int);
        assert(ready(g, first, at, first[at] as int));
        assert(ready(g, second, at, second[at] as int));
        if first[at] < second[at] {
            assert(!ready(g, second, at, first[at] as int));
        }
        if second[at] < first[at] {
            assert(!ready(g, first, at, second[at] as int));
        }
    }
}

/// A graph has at most one plan in stable order: the order is determined
/// by the graph.
pub proof fn lemma_stable_order_is_unique(g: Seq<Seq<usize>>, first: Seq<usize>, second: Seq<usize>)
    requires
        stable_order(g, first),
        stable_order(g, second),
    ensures
        first == second,
{
    lemma_stable_order_agrees(g, first, second, g.len() as int);
    assert(first =~= second);
}

/// In a plan in stable order, a node stands after each node it reads from.
pub proof fn lemma_plan_respects(g: Seq<Seq<usize>>, plan: Seq<usize>, i: int, j: int)
    requires
        stable_order(g, plan),
        0 <= i < plan.len(),
        0 <= j < plan.len(),
        depends_on(g, plan[j] as int, plan[i] as int),
    ensures
        i < j,
{
    lemma_plan_is_permutation(g, plan);
    assert(ready(g, plan, j, plan[j] as int));
    let v = plan[j] as int;
    let k = choose|k: int| 0 <= k < g[v].len() && #[trigger] g[v][k] == plan[i];
    assert(scheduled_before(plan, j, g[v][k] as int));
    let i2 = choose|i2: int| 0 <= i2 < j && i2 < plan.len() && #[trigger] plan[i2] == plan[i];
    if i2 < i {
        assert(plan[i2] != plan[i]);
    }
    if i < i2 {
        assert(plan[i] != plan[i2]);
    }
}

/// Topological soundness: in an execution plan, a node stands after every
/// node it reads from through a connection that lies on no feedback loop.
pub proof fn lemma_plan_respects_acyclic_edges(
    g: Seq<Seq<usize>>,
    kept: Seq<Seq<usize>>,
    plan: Seq<usize>,
    i: int,
    j: int,
)
    requires
        planned(g, kept, plan),
        0 <= i < plan.len(),
        0 <= j < plan.len(),
        depends_on(g, plan[j] as int, plan[i] as int),
        !on_cycle(g, plan[j] as int, plan[i] as int),
    ensures
        i < j,
{
    lemma_plan_respects(kept, plan, i, j);
}

/// The graph that a plan in stable order exists for has no feedback loop.
pub proof fn lemma_planned_graph_is_acyclic(g: Seq<Seq<usize>>, plan: Seq<usize>)
    requires
        well_formed(g),
        stable_order(g, plan),
    ensures
        acyclic(g),
{
    lemma_plan_is_permutation(g, plan);
    assert forall|a: int| !reaches(g, a, a) by {
        if reaches(g, a, a) {
            let p = choose|p: Seq<int>| #[trigger]
                is_chain(g, p) && p.len() >= 2 && p[0] == a && p.last() == a;
            lemma_chain_descends(g, plan, p, p.len() - 1);
        }
    }
}

/// The place of a node in the plan.
spec fn place(plan: Seq<usize>, x: int) -> int {
    choose|k: int| 0 <= k < plan.len() && #[trigger] plan[k] == x
}

proof fn lemma_place(plan: Seq<usize>, x: int)
    requires
        in_plan(plan, x),
    ensures
        0 <= place(plan, x) < plan.len(),
        plan[place(plan, x)] == x,
{
}

/// Along a chain the places in the plan go down.
proof fn lemma_chain_descends(g: Seq<Seq<usize>>, plan: Seq<usize>, p: Seq<int>, i: int)
    requires
        well_formed(g),
        stable_order(g, plan),
        is_chain(g, p),
        p.len() >= 2,
        0 < i < p.len(),
    ensures
        0 <= p[0] < g.len(),
        0 <= p[i] < g.len(),
        place(plan, p[i]) < place(plan, p[0]),
    decreases i,
{
    lemma_plan_is_permutation(g, plan);
    assert(depends_on(g, p[i - 1], p[i - 1 + 1]));
    assert(depends_on(g, p[0], p[1]));
    if i > 1 {
        lemma_chain_descends(g, plan, p, i - 1);
    }
    let v = p[i - 1];
    let k = choose|k: int| 0 <= k < g[v].len() && #[trigger] g[v][k] == p[i];
    assert(g[v][k] < g.len());
    let a = place(plan, v);
    let b = place(plan, p[i]);
    assert(in_plan(plan, v));
    assert(in_plan(plan, p[i]));
    lemma_place(plan, v);
    lemma_place(plan, p[i]);
    lemma_plan_respects(g, plan, b, a);
}

/// Plans the execution of a graph that may hold feedback loops: opens the
/// loops as `break_cycles` does, then orders the nodes as `toposort` does.
///
/// The plan holds every node once. A node stands after every node it reads
/// from, but for connections on a feedback loop, which may have been opened:
/// through such a connection a node reads what the other wrote one block
/// before.
pub fn plan_graph(output: usize, edges: Vec<Vec<usize>>) -> (plan: Vec<usize>)
    requires
        well_formed(graph_of(&edges)),
    ensures
        planned(graph_of(&edges), loops_opened(graph_of(&edges), output), plan@),
        plan.len() == edges.len(),
        forall|k: int| 0 <= k < plan.len() ==> (#[trigger] plan[k]) < edges.len(),
        forall|i: int, j: int| 0 <= i < j < plan.len() ==> plan[i] != plan[j],
        forall|x: int| 0 <= x < edges.len() ==> #[trigger] in_plan(plan@, x),
        forall|i: int, j: int|
            0 <= i < plan.len() && 0 <= j < plan.len() && depends_on(
                graph_of(&edges),
                #[trigger] plan[j] as int,
                #[trigger] plan[i] as int,
            ) && !on_cycle(graph_of(&edges), plan[j] as int, plan[i] as int) ==> i < j,
{
    let ghost g = graph_of(&edges);
    let kept = break_cycles(output, edges);
    let plan = toposort(&kept);
    proof {
        let h = graph_of(&kept);
        assert(planned(g, h, plan@));
        lemma_plan_is_permutation(h, plan@);
        assert forall|i: int, j: int|
            0 <= i < plan.len() && 0 <= j < plan.len() && depends_on(
                g,
                #[trigger] plan[j] as int,
                #[trigger] plan[i] as int,
            ) && !on_cycle(g, plan[j] as int, plan[i] as int) implies i < j by {
            lemma_plan_respects_acyclic_edges(g, h, plan@, i, j);
        }
    }
    plan
}

} // verus!
