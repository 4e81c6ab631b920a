//! Topological scheduling of passes over explicit edges.
//!
//! The order is built one pass at a time: at each step the lowest-indexed pass
//! that has not run yet and whose in-range predecessors have all run is taken.
//! Edges that name a pass index outside the graph are ignored. Each step scans
//! the nodes and edges once, so a schedule costs O(n * (n + m)).
use vstd::prelude::*;
use vstd::set_lib::*;
use vstd::arithmetic::div_mod::lemma_small_mod;
use crate::graph::{GraphError, NodeId};

verus! {

/// Whether both ends of edge `e` name one of the `n` passes.
pub open spec fn edge_in_range(n: nat, e: (NodeId, NodeId)) -> bool {
    e.0.0 < n && e.1.0 < n
}

/// Pass `v` may run once `done` have run: it has not run yet and every
/// in-range edge into it starts at a pass that has.
pub open spec fn is_ready(n: nat, edges: Seq<(NodeId, NodeId)>, done: Seq<usize>, v: nat) -> bool {
    &&& v < n
    &&& !done.contains(v as usize)
    &&& forall|k: int|
        0 <= k < edges.len() && edge_in_range(n, #[trigger] edges[k]) && edges[k].1.0 == v
            ==> done.contains(edges[k].0.0)
}

/// The lowest ready pass at index `from` or above.
pub open spec fn first_ready(n: nat, edges: Seq<(NodeId, NodeId)>, done: Seq<usize>, from: nat) -> Option<nat>
    decreases n - from,
{
    if from >= n {
        None
    } else if is_ready(n, edges, done, from) {
        Some(from)
    } else {
        first_ready(n, edges, done, from + 1)
    }
}

/// The order that scheduling produces when `done` have already run; it stops
/// early when no pass is ready.
pub open spec fn schedule_from(n: nat, edges: Seq<(NodeId, NodeId)>, done: Seq<usize>) -> Seq<usize>
    decreases n - done.len(),
{
    if done.len() >= n {
        done
    } else {
        match first_ready(n, edges, done, 0) {
            Some(v) => schedule_from(n, edges, done.push(v as usize)),
            None => done,
        }
    }
}

/// The execution order of `n` passes under `edges`; shorter than `n` exactly
/// when the edges form a cycle.
pub open spec fn schedule(n: nat, edges: Seq<(NodeId, NodeId)>) -> Seq<usize> {
    schedule_from(n, edges, Seq::empty())
}

/// `order` runs each of the `n` passes exactly once.
pub open spec fn is_total_order(n: nat, order: Seq<usize>) -> bool {
    &&& order.len() == n
    &&& order.no_duplicates()
    &&& forall|i: int| 0 <= i < order.len() ==> #[trigger] order[i] < n
}

/// Every in-range edge goes from an earlier to a later position of `order`.
pub open spec fn respects_edges(n: nat, edges: Seq<(NodeId, NodeId)>, order: Seq<usize>) -> bool {
    forall|k: int, i: int, j: int|
        0 <= k < edges.len() && edge_in_range(n, #[trigger] edges[k]) && 0 <= i < order.len() && 0 <= j
            < order.len() && #[trigger] order[i] == edges[k].0.0 && #[trigger] order[j] == edges[k].1.0
            ==> i < j
}

pub open spec fn is_topological_order(n: nat, edges: Seq<(NodeId, NodeId)>, order: Seq<usize>) -> bool {
    is_total_order(n, order) && respects_edges(n, edges, order)
}

/// The edges admit some execution order, that is, they form no cycle.
pub open spec fn has_topological_order(n: nat, edges: Seq<(NodeId, NodeId)>) -> bool {
    exists|order: Seq<usize>| is_topological_order(n, edges, order)
}

/// An in-range edge leads from position `i` of `cycle` to the next position,
/// the last position leading back to the first.
pub open spec fn cycle_step(n: nat, edges: Seq<(NodeId, NodeId)>, cycle: Seq<usize>, i: int) -> bool {
    exists|k: int|
        0 <= k < edges.len() && edge_in_range(n, #[trigger] edges[k]) && edges[k].0.0 == cycle[i] && edges[k].1.0
            == cycle[(i + 1) % (cycle.len() as int)]
}

/// `cycle` is a closed walk along in-range edges: each pass of it has an edge
/// to the next one, and the last has an edge back to the first.
pub open spec fn is_cycle(n: nat, edges: Seq<(NodeId, NodeId)>, cycle: Seq<usize>) -> bool {
    &&& cycle.len() > 0
    &&& forall|i: int| 0 <= i < cycle.len() ==> #[trigger] cycle_step(n, edges, cycle, i)
}

/// The edges hold a cycle.
pub open spec fn has_cycle(n: nat, edges: Seq<(NodeId, NodeId)>) -> bool {
    exists|cycle: Seq<usize>| is_cycle(n, edges, cycle)
}

/// An in-range edge goes from `u` to `v`.
#[verifier::opaque]
spec fn edge_between(n: nat, edges: Seq<(NodeId, NodeId)>, u: usize, v: usize) -> bool {
    exists|k: int| 0 <= k < edges.len() && edge_in_range(n, #[trigger] edges[k]) && edges[k].0.0 == u && edges[k].1.0 == v
}

/// Some pass that has not run in `done` has an in-range edge into `v`.
#[verifier::opaque]
spec fn waits_on_unrun(n: nat, edges: Seq<(NodeId, NodeId)>, done: Seq<usize>, v: usize) -> bool {
    exists|k: int|
        0 <= k < edges.len() && edge_in_range(n, #[trigger] edges[k]) && edges[k].1.0 == v && !done.contains(
            edges[k].0.0,
        )
}

/// Every pass below `n` that has not run in `done` waits on one that has not run.
#[verifier::opaque]
spec fn all_wait(n: nat, edges: Seq<(NodeId, NodeId)>, done: Seq<usize>) -> bool {
    forall|v: usize| v < n && !done.contains(v) ==> #[trigger] waits_on_unrun(n, edges, done, v)
}

/// A pass that has not run in `done` and keeps `v` from running.
spec fn blocker(n: nat, edges: Seq<(NodeId, NodeId)>, done: Seq<usize>, v: usize) -> usize {
    let k = choose|k: int|
        0 <= k < edges.len() && edge_in_range(n, #[trigger] edges[k]) && edges[k].1.0 == v && !done.contains(
            edges[k].0.0,
        );
    edges[k].0.0
}

/// `start`, then its blocker, then that pass's blocker, and so on: `len + 1`
/// passes, each after the first an unrun predecessor of the one before.
spec fn walk_back(n: nat, edges: Seq<(NodeId, NodeId)>, done: Seq<usize>, start: usize, len: nat) -> Seq<usize>
    decreases len,
{
    if len == 0 {
        seq![start]
    } else {
        let w = walk_back(n, edges, done, start, (len - 1) as nat);
        w.push(blocker(n, edges, done, w.last()))
    }
}

/// Every pass of `done` came after all of its in-range predecessors.
spec fn runs_after_predecessors(n: nat, edges: Seq<(NodeId, NodeId)>, done: Seq<usize>) -> bool {
    &&& done.no_duplicates()
    &&& forall|i: int| 0 <= i < done.len() ==> #[trigger] done[i] < n
    &&& forall|j: int, k: int|
        0 <= j < done.len() && 0 <= k < edges.len() && edge_in_range(n, #[trigger] edges[k])
            && edges[k].1.0 == #[trigger] done[j] ==> done.subrange(0, j).contains(edges[k].0.0)
}

proof fn lemma_first_ready(n: nat, edges: Seq<(NodeId, NodeId)>, done: Seq<usize>, from: nat)
    ensures
        first_ready(n, edges, done, from) matches Some(v) ==> from <= v && is_ready(n, edges, done, v),
        first_ready(n, edges, done, from) is None ==> forall|v: nat|
            from <= v ==> !#[trigger] is_ready(n, edges, done, v),
    decreases n - from,
{
    if from < n {
        lemma_first_ready(n, edges, done, from + 1);
    }
}

proof fn lemma_schedule_from(n: nat, edges: Seq<(NodeId, NodeId)>, done: Seq<usize>)
    requires
        n <= usize::MAX,
        runs_after_predecessors(n, edges, done),
        done.len() <= n,
    ensures
        runs_after_predecessors(n, edges, schedule_from(n, edges, done)),
        schedule_from(n, edges, done).len() <= n,
        schedule_from(n, edges, done).len() < n ==> first_ready(n, edges, schedule_from(n, edges, done), 0) is None,
    decreases n - done.len(),
{
    if done.len() < n {
        if let Some(v) = first_ready(n, edges, done, 0) {
            lemma_step_keeps_ready_order(n, edges, done, v);
            lemma_schedule_from(n, edges, done.push(v as usize));
        }
    }
}

/// The range of pass indices below `n`, as a set.
spec fn index_range(n: nat) -> Set<usize> {
    Set::new(|v: usize| v < n)
}

proof fn lemma_index_range(n: nat)
    requires
        n <= usize::MAX + 1,
    ensures
        index_range(n).finite(),
        index_range(n).len() == n,
    decreases n,
{
    if n == 0 {
        assert(index_range(n) =~= Set::empty());
    } else {
        lemma_index_range((n - 1) as nat);
        assert(index_range(n) =~= index_range((n - 1) as nat).insert((n - 1) as usize));
    }
}

/// A duplicate-free sequence of indices below `n` holds them all exactly when
/// its length is `n`.
proof fn lemma_covers_range(n: nat, s: Seq<usize>)
    requires
        n <= usize::MAX + 1,
        s.no_duplicates(),
        forall|i: int| 0 <= i < s.len() ==> #[trigger] s[i] < n,
    ensures
        s.len() == n ==> forall|v: usize| v < n ==> #[trigger] s.contains(v),
        s.len() < n ==> exists|v: usize| v < n && !#[trigger] s.contains(v),
{
    lemma_index_range(n);
    s.unique_seq_to_set();
    assert(s.to_set().subset_of(index_range(n))) by {
        assert forall|v: usize| s.to_set().contains(v) implies index_range(n).contains(v) by {
            let i = choose|i: int| 0 <= i < s.len() && s[i] == v;
            assert(s[i] < n);
        }
    }
    lemma_len_subset(s.to_set(), index_range(n));
    if s.len() == n {
        lemma_subset_equality(s.to_set(), index_range(n));
        assert forall|v: usize| v < n implies #[trigger] s.contains(v) by {
            assert(index_range(n).contains(v));
            assert(s.to_set().contains(v));
        }
    }
    if s.len() < n {
        if forall|v: usize| v < n ==> #[trigger] s.contains(v) {
            assert(index_range(n).subset_of(s.to_set())) by {
                assert forall|v: usize| index_range(n).contains(v) implies s.to_set().contains(v) by {
                    assert(s.contains(v));
                }
            }
            lemma_len_subset(index_range(n), s.to_set());
        }
    }
}

/// The first position of `order` whose pass has not run in `done`.
proof fn lemma_first_not_done(order: Seq<usize>, done: Seq<usize>, start: int) -> (i: int)
    requires
        0 <= start <= order.len(),
        forall|j: int| 0 <= j < start ==> done.contains(#[trigger] order[j]),
        exists|j: int| start <= j < order.len() && !done.contains(#[trigger] order[j]),
    ensures
        start <= i < order.len(),
        !done.contains(order[i]),
        forall|j: int| 0 <= j < i ==> done.contains(#[trigger] order[j]),
    decreases order.len() - start,
{
    if !done.contains(order[start]) {
        start
    } else {
        lemma_first_not_done(order, done, start + 1)
    }
}

/// The schedule is a topological order exactly when one exists, and it holds
/// every pass of the graph.
pub proof fn lemma_schedule_correct(n: nat, edges: Seq<(NodeId, NodeId)>)
    requires
        n <= usize::MAX,
    ensures
        schedule(n, edges).len() == n <==> has_topological_order(n, edges),
        schedule(n, edges).len() == n ==> is_topological_order(n, edges, schedule(n, edges)),
        schedule(n, edges).len() == n ==> forall|v: usize| v < n ==> #[trigger] schedule(n, edges).contains(v),
{
    let s = schedule(n, edges);
    let empty = Seq::<usize>::empty();
    assert(runs_after_predecessors(n, edges, empty));
    lemma_schedule_from(n, edges, empty);
    lemma_covers_range(n, s);
    if s.len() == n {
        assert forall|k: int, i: int, j: int|
            0 <= k < edges.len() && edge_in_range(n, #[trigger] edges[k]) && 0 <= i < s.len() && 0 <= j < s.len()
                && #[trigger] s[i] == edges[k].0.0 && #[trigger] s[j] == edges[k].1.0 implies i < j by {
            assert(s.subrange(0, j).contains(edges[k].0.0));
            let i2 = choose|i2: int| 0 <= i2 < j && s.subrange(0, j)[i2] == edges[k].0.0;
            assert(s[i2] == s[i]);
        }
        assert(is_topological_order(n, edges, s));
    } else {
        if has_topological_order(n, edges) {
            let o = choose|o: Seq<usize>| is_topological_order(n, edges, o);
            lemma_covers_range(n, o);
            let v = choose|v: usize| v < n && !s.contains(v);
            assert(o.contains(v));
            let first = lemma_first_not_done(o, s, 0);
            let w = o[first];
            assert(is_ready(n, edges, s, w as nat)) by {
                assert forall|k: int|
                    0 <= k < edges.len() && edge_in_range(n, #[trigger] edges[k]) && edges[k].1.0 == w
                        implies s.contains(edges[k].0.0) by {
                    assert(o.contains(edges[k].0.0));
                    let p = choose|p: int| 0 <= p < o.len() && o[p] == edges[k].0.0;
                    assert(p < first);
                }
            }
            lemma_first_ready(n, edges, s, 0);
        }
    }
}

/// A duplicate-free sequence of indices below `n` has at most `n` entries.
proof fn lemma_distinct_bounded(n: nat, s: Seq<usize>)
    requires
        n <= usize::MAX + 1,
        s.no_duplicates(),
        forall|i: int| 0 <= i < s.len() ==> #[trigger] s[i] < n,
    ensures
        s.len() <= n,
{
    lemma_index_range(n);
    s.unique_seq_to_set();
    assert(s.to_set().subset_of(index_range(n))) by {
        assert forall|v: usize| s.to_set().contains(v) implies index_range(n).contains(v) by {
            let i = choose|i: int| 0 <= i < s.len() && s[i] == v;
            assert(s[i] < n);
        }
    }
    lemma_len_subset(s.to_set(), index_range(n));
}

/// While every unrun pass waits on an unrun pass, walking back from an unrun
/// pass stays among unrun passes and follows edges.
proof fn lemma_walk_back(n: nat, edges: Seq<(NodeId, NodeId)>, done: Seq<usize>, start: usize, len: nat)
    requires
        start < n,
        !done.contains(start),
        all_wait(n, edges, done),
    ensures
        walk_back(n, edges, done, start, len).len() == len + 1,
        forall|i: int|
            0 <= i <= len ==> #[trigger] walk_back(n, edges, done, start, len)[i] < n && !done.contains(
                walk_back(n, edges, done, start, len)[i],
            ),
        forall|i: int|
            0 <= i < len ==> edge_between(
                n,
                edges,
                walk_back(n, edges, done, start, len)[i + 1],
                #[trigger] walk_back(n, edges, done, start, len)[i],
            ),
    decreases len,
{
    if len > 0 {
        let p = (len - 1) as nat;
        lemma_walk_back(n, edges, done, start, p);
        let w = walk_back(n, edges, done, start, p);
        let all = walk_back(n, edges, done, start, len);
        let v = w.last();
        assert(w[p as int] == v);
        reveal(all_wait);
        assert(waits_on_unrun(n, edges, done, v));
        reveal(waits_on_unrun);
        let k = choose|k: int|
            0 <= k < edges.len() && edge_in_range(n, #[trigger] edges[k]) && edges[k].1.0 == v && !done.contains(
                edges[k].0.0,
            );
        let u = edges[k].0.0;
        assert(all == w.push(u));
        assert(edge_between(n, edges, u, v)) by {
            reveal(edge_between);
        }
        assert forall|i: int| 0 <= i <= len implies #[trigger] all[i] < n && !done.contains(all[i]) by {
            if i < len {
                assert(all[i] == w[i]);
            }
        }
        assert forall|i: int| 0 <= i < len implies edge_between(n, edges, all[i + 1], #[trigger] all[i]) by {
            if i < p {
                assert(all[i] == w[i]);
                assert(all[i + 1] == w[i + 1]);
            } else {
                assert(all[i] == v);
                assert(all[i + 1] == u);
            }
        }
    }
}

/// Edges with no execution order hold a cycle.
pub proof fn lemma_no_order_has_cycle(n: nat, edges: Seq<(NodeId, NodeId)>)
    requires
        n <= usize::MAX,
        !has_topological_order(n, edges),
    ensures
        has_cycle(n, edges),
{
    let s = schedule(n, edges);
    let empty = Seq::<usize>::empty();
    assert(runs_after_predecessors(n, edges, empty));
    lemma_schedule_from(n, edges, empty);
    lemma_schedule_correct(n, edges);
    lemma_covers_range(n, s);
    lemma_first_ready(n, edges, s, 0);
    let v0 = choose|v: usize| v < n && !s.contains(v);
    assert(all_wait(n, edges, s)) by {
        reveal(all_wait);
        assert forall|v: usize| v < n && !s.contains(v) implies #[trigger] waits_on_unrun(n, edges, s, v) by {
            assert(!is_ready(n, edges, s, v as nat));
            reveal(waits_on_unrun);
        }
    }
    lemma_walk_back(n, edges, s, v0, n);
    let w = walk_back(n, edges, s, v0, n);
    if w.no_duplicates() {
        lemma_distinct_bounded(n, w);
    }
    assert(exists|a: int, b: int| 0 <= a < b < w.len() && w[a] == w[b]) by {
        let (i, j) = choose|i: int, j: int| 0 <= i < w.len() && 0 <= j < w.len() && i != j && w[i] == w[j];
        if i < j {
            assert(0 <= i < j < w.len() && w[i] == w[j]);
        } else {
            assert(0 <= j < i < w.len() && w[j] == w[i]);
        }
    }
    let (a, b) = choose|a: int, b: int| 0 <= a < b < w.len() && w[a] == w[b];
    let len = b - a;
    let cycle = Seq::new(len as nat, |t: int| w[b - t]);
    assert(cycle.len() as int == len);
    assert forall|t: int| 0 <= t < cycle.len() implies #[trigger] cycle_step(n, edges, cycle, t) by {
        let i = b - t - 1;
        assert(edge_between(n, edges, w[i + 1], w[i]));
        assert(cycle[t] == w[i + 1]);
        if t < len - 1 {
            lemma_small_mod((t + 1) as nat, len as nat);
            assert(cycle[(t + 1) % len] == w[i]);
        } else {
            vstd::arithmetic::div_mod::lemma_mod_self_0(len);
            assert(cycle[(t + 1) % len] == w[a]);
        }
        reveal(edge_between);
    }
    assert(is_cycle(n, edges, cycle));
}

/// The edges admit an execution order exactly when they hold no cycle.
pub proof fn lemma_order_iff_no_cycle(n: nat, edges: Seq<(NodeId, NodeId)>)
    requires
        n <= usize::MAX,
    ensures
        has_topological_order(n, edges) <==> !has_cycle(n, edges),
{
    if has_cycle(n, edges) {
        let c = choose|c: Seq<usize>| is_cycle(n, edges, c);
        lemma_cycle_has_no_order(n, edges, c);
    }
    if !has_topological_order(n, edges) {
        lemma_no_order_has_cycle(n, edges);
    }
}

/// A cycle along the edges rules out every execution order.
pub proof fn lemma_cycle_has_no_order(n: nat, edges: Seq<(NodeId, NodeId)>, cycle: Seq<usize>)
    requires
        n <= usize::MAX,
        is_cycle(n, edges, cycle),
    ensures
        !has_topological_order(n, edges),
{
    if has_topological_order(n, edges) {
        let o = choose|o: Seq<usize>| is_topological_order(n, edges, o);
        lemma_covers_range(n, o);
        let len = cycle.len() as int;
        let pos = |v: usize| choose|p: int| 0 <= p < o.len() && o[p] == v;
        assert forall|i: int| 0 <= i < len implies pos(cycle[i]) < pos(#[trigger] cycle[(i + 1) % len])
            && 0 <= pos(cycle[i]) < o.len() && o[pos(cycle[i])] == cycle[i] by {
            assert(cycle_step(n, edges, cycle, i));
            let k = choose|k: int|
                0 <= k < edges.len() && edge_in_range(n, #[trigger] edges[k]) && edges[k].0.0 == cycle[i]
                    && edges[k].1.0 == cycle[(i + 1) % len];
            assert(o.contains(cycle[i]));
            assert(o.contains(cycle[(i + 1) % len]));
        }
        assert forall|j: int| 0 <= j < len - 1 implies #[trigger] ((j + 1) % len) == j + 1 by {
            lemma_small_mod((j + 1) as nat, len as nat);
        }
        assert forall|i: int| 0 <= i < len implies #[trigger] pos(cycle[i]) >= pos(cycle[0]) + i by {
            lemma_walk_rises(len, i, |j: int| pos(cycle[j]), |j: int| pos(cycle[(j + 1) % len]));
        }
        assert(pos(cycle[(len - 1 + 1) % len]) == pos(cycle[0])) by {
            vstd::arithmetic::div_mod::lemma_mod_self_0(len);
        }
        assert(pos(cycle[len - 1]) < pos(cycle[(len - 1 + 1) % len]));
    }
}

proof fn lemma_walk_rises(len: int, i: int, at: spec_fn(int) -> int, next: spec_fn(int) -> int)
    requires
        0 <= i < len,
        forall|j: int| 0 <= j < len ==> #[trigger] at(j) < next(j),
        forall|j: int| 0 <= j < len - 1 ==> #[trigger] next(j) == at(j + 1),
    ensures
        at(i) >= at(0) + i,
    decreases i,
{
    if i > 0 {
        lemma_walk_rises(len, i - 1, at, next);
        assert(next(i - 1) == at(i));
    }
}

/// Schedules `node_count` passes under `edges`; `Cycle` when no execution
/// order exists.
pub fn topological_order(node_count: usize, edges: &Vec<(NodeId, NodeId)>) -> (r: Result<Vec<usize>, GraphError>)
    ensures
        match r {
            Ok(order) => order@ == schedule(node_count as nat, edges@)
                && is_topological_order(node_count as nat, edges@, order@),
            Err(e) => e is Cycle,
        },
        r is Ok <==> has_topological_order(node_count as nat, edges@),
        r is Err <==> has_cycle(node_count as nat, edges@),
{
    let n = node_count;
    let ghost nn = n as nat;
    proof {
        lemma_schedule_correct(nn, edges@);
    }
    let mut done: Vec<bool> = Vec::new();
    let mut i: usize = 0;
    while i < n
        invariant
            nn == n,
            i <= n,
            done@ == Seq::new(i as nat, |v: int| false),
        decreases n - i,
    {
        done.push(false);
        i = i + 1;
    }
    let mut order: Vec<usize> = Vec::new();
    proof {
        assert(runs_after_predecessors(nn, edges@, order@));
    }
    while order.len() < n
        invariant
            nn == n,
            n == node_count,
            done@.len() == n,
            order@.len() <= n,
            schedule_from(nn, edges@, order@) == schedule(nn, edges@),
            runs_after_predecessors(nn, edges@, order@),
            forall|v: int| 0 <= v < n ==> done@[v] == order@.contains(v as usize),
        decreases n - order@.len(),
    {
        // Passes that still wait on an in-range predecessor that has not run.
        let mut blocked: Vec<bool> = Vec::new();
        let mut b: usize = 0;
        while b < n
            invariant
                nn == n,
                b <= n,
                blocked@ == Seq::new(b as nat, |v: int| false),
            decreases n - b,
        {
            blocked.push(false);
            b = b + 1;
        }
        let mut k: usize = 0;
        while k < edges.len()
            invariant
                nn == n,
                k <= edges.len(),
                blocked@.len() == n,
                done@.len() == n,
                forall|v: int| 0 <= v < n ==> done@[v] == order@.contains(v as usize),
                forall|v: int|
                    0 <= v < n ==> (blocked@[v] <==> exists|e: int|
                        0 <= e < k && edge_in_range(nn, #[trigger] edges@[e]) && edges@[e].1.0 == v
                            && !order@.contains(edges@[e].0.0)),
            decreases edges.len() - k,
        {
            let edge = edges[k];
            let a = edge.0.0;
            let bb = edge.1.0;
            if a < n && bb < n && !done[a] {
                blocked.set(bb, true);
            }
            proof {
                assert forall|v: int|
                    0 <= v < n implies (blocked@[v] <==> exists|e: int|
                        0 <= e < k + 1 && edge_in_range(nn, #[trigger] edges@[e]) && edges@[e].1.0 == v
                            && !order@.contains(edges@[e].0.0)) by {
                    if blocked@[v] && !(v == bb && a < n && bb < n && !done@[a as int]) {
                        let e = choose|e: int|
                            0 <= e < k && edge_in_range(nn, #[trigger] edges@[e]) && edges@[e].1.0 == v
                                && !order@.contains(edges@[e].0.0);
                        assert(0 <= e < k + 1);
                    }
                    if v == bb && a < n && bb < n && !done@[a as int] {
                        assert(edge_in_range(nn, edges@[k as int]));
                    }
                }
            }
            k = k + 1;
        }
        let mut v: usize = 0;
        while v < n && (done[v] || blocked[v])
            invariant
                nn == n,
                v <= n,
                blocked@.len() == n,
                done@.len() == n,
                first_ready(nn, edges@, order@, v as nat) == first_ready(nn, edges@, order@, 0),
                forall|w: int| 0 <= w < n ==> done@[w] == order@.contains(w as usize),
                forall|w: int|
                    0 <= w < n ==> (blocked@[w] <==> exists|e: int|
                        0 <= e < edges@.len() && edge_in_range(nn, #[trigger] edges@[e]) && edges@[e].1.0 == w
                            && !order@.contains(edges@[e].0.0)),
            decreases n - v,
        {
            proof {
                assert(!is_ready(nn, edges@, order@, v as nat));
            }
            v = v + 1;
        }
        if v == n {
            proof {
                lemma_first_ready(nn, edges@, order@, nn);
                assert(schedule_from(nn, edges@, order@) == order@);
                lemma_schedule_correct(nn, edges@);
                lemma_order_iff_no_cycle(nn, edges@);
            }
            return Err(GraphError::Cycle);
        }
        proof {
            assert(is_ready(nn, edges@, order@, v as nat)) by {
                assert forall|e: int|
                    0 <= e < edges@.len() && edge_in_range(nn, #[trigger] edges@[e]) && edges@[e].1.0 == v
                        implies order@.contains(edges@[e].0.0) by {
                    assert(!blocked@[v as int]);
                }
            }
            lemma_schedule_from(nn, edges@, order@);
            lemma_first_ready(nn, edges@, order@, 0);
        }
        let ghost before = order@;
        done.set(v, true);
        order.push(v);
        proof {
            assert(order@ == before.push(v));
            assert forall|w: int| 0 <= w < n implies done@[w] == order@.contains(w as usize) by {
                if w != v {
                    if before.contains(w as usize) {
                        let p = choose|p: int| 0 <= p < before.len() && before[p] == w as usize;
                        assert(order@[p] == before[p]);
                    }
                    if order@.contains(w as usize) {
                        let p = choose|p: int| 0 <= p < order@.len() && order@[p] == w as usize;
                        assert(p < before.len());
                        assert(before[p] == w as usize);
                    }
                } else {
                    assert(order@[before.len() as int] == v);
                }
            }
            // the step that `schedule_from` takes from `before`
            assert(first_ready(nn, edges@, before, 0) == Some(v as nat));
            lemma_step_keeps_ready_order(nn, edges@, before, v as nat);
        }
    }
    proof {
        assert(schedule_from(nn, edges@, order@) == order@);
        lemma_order_iff_no_cycle(nn, edges@);
    }
    Ok(order)
}

/// Taking the first ready pass preserves the invariant of `runs_after_predecessors`.
proof fn lemma_step_keeps_ready_order(n: nat, edges: Seq<(NodeId, NodeId)>, done: Seq<usize>, v: nat)
    requires
        n <= usize::MAX,
        runs_after_predecessors(n, edges, done),
        done.len() < n,
        first_ready(n, edges, done, 0) == Some(v),
    ensures
        schedule_from(n, edges, done) == schedule_from(n, edges, done.push(v as usize)),
        runs_after_predecessors(n, edges, done.push(v as usize)),
{
    lemma_first_ready(n, edges, done, 0);
    let next = done.push(v as usize);
    assert forall|j: int| 0 <= j < done.len() implies #[trigger] next.subrange(0, j) == done.subrange(0, j) by {
        assert(next.subrange(0, j) =~= done.subrange(0, j));
    }
    assert(next.subrange(0, done.len() as int) =~= done);
    assert forall|i: int| 0 <= i < next.len() implies #[trigger] next[i] < n by {
        if i < done.len() {
            assert(next[i] == done[i]);
        }
    }
    assert(next.no_duplicates()) by {
        assert forall|a: int, b: int| 0 <= a < b < next.len() implies next[a] != next[b] by {
            if b == done.len() {
                assert(done.contains(next[a]));
            }
        }
    }
    assert forall|j: int, k: int|
        0 <= j < next.len() && 0 <= k < edges.len() && edge_in_range(n, #[trigger] edges[k])
            && edges[k].1.0 == #[trigger] next[j] implies next.subrange(0, j).contains(edges[k].0.0) by {
        if j < done.len() {
            assert(next[j] == done[j]);
        }
    }
}

} // verus!
