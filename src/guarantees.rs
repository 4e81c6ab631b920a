//! What executing a render graph guarantees, stated over the graph's plan and
//! proved from the scheduler's and the hazard tracker's definitions.
//!
//! `RenderGraph::plan` returns exactly `spec_plan()`, and `RenderGraph::execute`
//! records and runs what that plan lists, so each fact below holds of both.
use vstd::prelude::*;
use crate::graph::{Barrier, RenderGraph, ResourceId, ResourceKind};
use crate::schedule::{
    has_cycle, is_cycle, is_topological_order, lemma_cycle_has_no_order, lemma_order_iff_no_cycle,
    lemma_schedule_correct,
};
use crate::tracking::{
    barriers_on, lemma_barriers_on_concat, lemma_buffer_barriers_on, lemma_texture_barriers_not_needed,
    layout_left_before, lemma_layout_before, lemma_texture_barriers_on, lemma_texture_barriers_skip_buffers,
    lemma_written_before, needs_no_transition, uses_count,
};

verus! {

/// A graph whose edges form no cycle runs every registered pass exactly once,
/// and every pass after each pass that an edge puts before it.
pub proof fn acyclic_graph_runs_every_pass_in_edge_order(g: &RenderGraph)
    requires
        g.wf(),
        g.is_schedulable(),
    ensures
        is_topological_order(g.node_count(), g.edge_list(), g.spec_order()),
        forall|v: usize| v < g.node_count() ==> #[trigger] g.spec_order().contains(v),
        g.spec_plan().len() == g.node_count(),
        forall|j: int| 0 <= j < g.spec_plan().len() ==> #[trigger] g.spec_plan()[j].0 == g.spec_order()[j],
{
    g.lemma_counts();
    lemma_schedule_correct(g.node_count(), g.edge_list());
}

/// A graph whose edges hold a cycle has no execution order, so `plan` and
/// `execute` return `Cycle` and record nothing.
pub proof fn cyclic_graph_is_rejected(g: &RenderGraph, cycle: Seq<usize>)
    requires
        g.wf(),
        is_cycle(g.node_count(), g.edge_list(), cycle),
    ensures
        !g.is_schedulable(),
{
    g.lemma_counts();
    lemma_cycle_has_no_order(g.node_count(), g.edge_list(), cycle);
}

/// A graph can be scheduled exactly when its edges hold no cycle.
pub proof fn schedulable_iff_acyclic(g: &RenderGraph)
    requires
        g.wf(),
    ensures
        g.is_schedulable() <==> !has_cycle(g.node_count(), g.edge_list()),
{
    g.lemma_counts();
    lemma_order_iff_no_cycle(g.node_count(), g.edge_list());
}

/// Before a pass that declares a buffer once, the graph records exactly one
/// barrier for that buffer when an earlier pass wrote it, and none when no
/// earlier pass did; a pass that does not declare it gets none for it.
pub proof fn buffer_barrier_after_write(g: &RenderGraph, j: int, r: ResourceId)
    requires
        0 <= j < g.spec_plan().len(),
        r.0 < g.resource_kinds().len(),
        g.resource_kinds()[r.0 as int] == ResourceKind::Buffer,
        uses_count(g.uses_at(j), r) <= 1,
    ensures
        barriers_on(g.spec_plan()[j].1, r) == (if g.written_before(j, r) && uses_count(g.uses_at(j), r) == 1 {
            seq![Barrier::Buffer(r)]
        } else {
            Seq::<Barrier>::empty()
        }),
{
    let order = g.spec_order();
    let usages = g.usage_table();
    let kinds = g.resource_kinds();
    let uses = g.uses_at(j);
    lemma_written_before(order, usages, kinds, j as nat);
    let st = crate::tracking::tracker_before(order, usages, kinds, j as nat);
    assert(st.0[r.0 as int] == g.written_before(j, r));
    lemma_barriers_on_concat(
        crate::tracking::buffer_barriers(uses, kinds, st),
        crate::tracking::texture_barriers(uses, kinds, st),
        r,
    );
    lemma_buffer_barriers_on(uses, kinds, st, r);
    lemma_texture_barriers_skip_buffers(uses, kinds, st, r);
    assert(Seq::new(1, |k: int| Barrier::Buffer(r)) =~= seq![Barrier::Buffer(r)]);
    assert(Seq::new(0, |k: int| Barrier::Buffer(r)) =~= Seq::<Barrier>::empty());
    assert(Seq::<Barrier>::empty() + Seq::<Barrier>::empty() =~= Seq::<Barrier>::empty());
    assert(seq![Barrier::Buffer(r)] + Seq::<Barrier>::empty() =~= seq![Barrier::Buffer(r)]);
}

/// Before a pass that declares a written texture once, the graph records for
/// it exactly one transition, from the tracked layout to the hint's needed
/// layout, when the pass gives a hint and the two layouts differ; otherwise,
/// and in particular when the pass gives no hint, it records none.
pub proof fn texture_barrier_on_layout_change(g: &RenderGraph, j: int, i: int)
    requires
        0 <= j < g.spec_plan().len(),
        0 <= i < g.uses_at(j).len(),
        g.uses_at(j)[i].0.0 < g.resource_kinds().len(),
        g.resource_kinds()[g.uses_at(j)[i].0.0 as int] == ResourceKind::Texture,
        uses_count(g.uses_at(j), g.uses_at(j)[i].0) == 1,
        g.written_before(j, g.uses_at(j)[i].0),
    ensures
        barriers_on(g.spec_plan()[j].1, g.uses_at(j)[i].0) == (match g.uses_at(j)[i].2 {
            Some(h) => if g.layout_before(j, g.uses_at(j)[i].0) != h.need_layout {
                seq![
                    Barrier::Texture {
                        resource: g.uses_at(j)[i].0,
                        old_layout: g.layout_before(j, g.uses_at(j)[i].0),
                        new_layout: h.need_layout,
                    },
                ]
            } else {
                Seq::<Barrier>::empty()
            },
            None => Seq::<Barrier>::empty(),
        }),
{
    let order = g.spec_order();
    let usages = g.usage_table();
    let kinds = g.resource_kinds();
    let uses = g.uses_at(j);
    let r = uses[i].0;
    lemma_written_before(order, usages, kinds, j as nat);
    let st = crate::tracking::tracker_before(order, usages, kinds, j as nat);
    assert(st.0[r.0 as int]);
    lemma_barriers_on_concat(
        crate::tracking::buffer_barriers(uses, kinds, st),
        crate::tracking::texture_barriers(uses, kinds, st),
        r,
    );
    lemma_buffer_barriers_on(uses, kinds, st, r);
    lemma_texture_barriers_on(uses, kinds, st, r, i);
    let tail = barriers_on(crate::tracking::texture_barriers(uses, kinds, st), r);
    assert(Seq::<Barrier>::empty() + tail =~= tail);
}

/// Before a pass none of whose declarations of a texture asks for a layout
/// other than the tracked one (in particular, one that declares it only
/// without hints), the graph records no barrier for that texture, even when
/// an earlier pass wrote it and however often the pass declares it.
pub proof fn texture_barrier_only_on_request(g: &RenderGraph, j: int, r: ResourceId)
    requires
        0 <= j < g.spec_plan().len(),
        r.0 < g.resource_kinds().len(),
        g.resource_kinds()[r.0 as int] == ResourceKind::Texture,
        needs_no_transition(g.uses_at(j), r, g.layout_before(j, r)),
    ensures
        barriers_on(g.spec_plan()[j].1, r) == Seq::<Barrier>::empty(),
{
    let order = g.spec_order();
    let usages = g.usage_table();
    let kinds = g.resource_kinds();
    let uses = g.uses_at(j);
    lemma_written_before(order, usages, kinds, j as nat);
    let st = crate::tracking::tracker_before(order, usages, kinds, j as nat);
    lemma_barriers_on_concat(
        crate::tracking::buffer_barriers(uses, kinds, st),
        crate::tracking::texture_barriers(uses, kinds, st),
        r,
    );
    lemma_buffer_barriers_on(uses, kinds, st, r);
    lemma_texture_barriers_not_needed(uses, kinds, st, r);
    assert(Seq::<Barrier>::empty() + Seq::<Barrier>::empty() =~= Seq::<Barrier>::empty());
}

/// The tracked layout that texture barriers start from is the layout the
/// last earlier pass that names the texture with a hint left it in (its
/// layout after the pass when it writes, its needed layout when it reads),
/// and `Undefined` when no earlier pass names it with a hint.
pub proof fn tracked_layout_is_last_hinted(g: &RenderGraph, j: int, r: ResourceId)
    requires
        0 <= j <= g.spec_order().len(),
        r.0 < g.resource_kinds().len(),
        g.resource_kinds()[r.0 as int] == ResourceKind::Texture,
    ensures
        g.layout_before(j, r) == layout_left_before(g.spec_order(), g.usage_table(), j as nat, r),
{
    lemma_layout_before(g.spec_order(), g.usage_table(), g.resource_kinds(), j as nat, r);
}

/// Two graphs built alike (the same number of passes with the same uses, the
/// same edges and the same resource kinds, in the same registration order)
/// are scheduled alike and get the same barriers in the same places.
pub proof fn identical_graphs_plan_alike(g1: &RenderGraph, g2: &RenderGraph)
    requires
        g1.node_count() == g2.node_count(),
        g1.usage_table() == g2.usage_table(),
        g1.edge_list() == g2.edge_list(),
        g1.resource_kinds() == g2.resource_kinds(),
    ensures
        g1.is_schedulable() == g2.is_schedulable(),
        g1.spec_order() == g2.spec_order(),
        g1.spec_plan() == g2.spec_plan(),
{
}

} // verus!
