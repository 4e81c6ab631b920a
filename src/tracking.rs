//! Hazard tracking: which barriers a pass needs, given what earlier passes did
//! to each resource, and how a pass changes that record.
//!
//! The tracker holds, per registered resource, whether an earlier pass wrote
//! it and the texture layout it was last known to be in (`Undefined` at first).
use vstd::prelude::*;
use crate::graph::{Barrier, ResourceHandle, ResourceId, ResourceKind, ResourceUsage, TextureBarrierHint};
use crate::rhi::ImageLayout;

verus! {

/// A declared use of a resource by a pass, with its optional texture hint.
pub type UsageDecl = (ResourceId, ResourceUsage, Option<TextureBarrierHint>);

/// Per-resource record: written by an earlier pass, last known layout.
pub type TrackerState = (Seq<bool>, Seq<ImageLayout>);

/// The kinds of the registered resources, by resource index.
pub open spec fn kinds_of(resources: Seq<ResourceHandle>) -> Seq<ResourceKind> {
    resources.map_values(|h: ResourceHandle| h.spec_kind())
}

/// Nothing written, every layout `Undefined`.
pub open spec fn initial_tracker(resource_count: nat) -> TrackerState {
    (Seq::new(resource_count, |i: int| false), Seq::new(resource_count, |i: int| ImageLayout::Undefined))
}

/// Use `u` touches a registered buffer that an earlier pass wrote.
pub open spec fn needs_buffer_barrier(u: UsageDecl, kinds: Seq<ResourceKind>, st: TrackerState) -> bool {
    let r = u.0.0 as int;
    0 <= r < kinds.len() && kinds[r] == ResourceKind::Buffer && st.0[r]
}

/// The layout transition use `u` calls for: a registered texture that an
/// earlier pass wrote, a hint, and a tracked layout other than the hint's.
pub open spec fn texture_transition(u: UsageDecl, kinds: Seq<ResourceKind>, st: TrackerState) -> Option<Barrier> {
    let r = u.0.0 as int;
    match u.2 {
        Some(h) => if 0 <= r < kinds.len() && kinds[r] == ResourceKind::Texture && st.0[r] && st.1[r]
            != h.need_layout {
            Some(Barrier::Texture { resource: u.0, old_layout: st.1[r], new_layout: h.need_layout })
        } else {
            None
        },
        None => None,
    }
}

/// Buffer barriers for `uses`, in declaration order.
pub open spec fn buffer_barriers(uses: Seq<UsageDecl>, kinds: Seq<ResourceKind>, st: TrackerState) -> Seq<Barrier>
    decreases uses.len(),
{
    if uses.len() == 0 {
        Seq::empty()
    } else {
        let rest = buffer_barriers(uses.drop_last(), kinds, st);
        if needs_buffer_barrier(uses.last(), kinds, st) {
            rest.push(Barrier::Buffer(uses.last().0))
        } else {
            rest
        }
    }
}

/// Texture barriers for `uses`, in declaration order.
pub open spec fn texture_barriers(uses: Seq<UsageDecl>, kinds: Seq<ResourceKind>, st: TrackerState) -> Seq<Barrier>
    decreases uses.len(),
{
    if uses.len() == 0 {
        Seq::empty()
    } else {
        let rest = texture_barriers(uses.drop_last(), kinds, st);
        match texture_transition(uses.last(), kinds, st) {
            Some(b) => rest.push(b),
            None => rest,
        }
    }
}

/// All barriers recorded before a pass with `uses`: buffer barriers first,
/// then texture barriers.
pub open spec fn barriers_for(uses: Seq<UsageDecl>, kinds: Seq<ResourceKind>, st: TrackerState) -> Seq<Barrier> {
    buffer_barriers(uses, kinds, st) + texture_barriers(uses, kinds, st)
}

/// The record after use `u`: a write marks the resource written; a hinted
/// texture takes the hint's layout after the pass (writes) or its needed
/// layout (reads).
pub open spec fn track_usage(st: TrackerState, u: UsageDecl, kinds: Seq<ResourceKind>) -> TrackerState {
    let r = u.0.0 as int;
    if !(0 <= r < kinds.len()) {
        st
    } else {
        let written = if u.1.writes() { st.0.update(r, true) } else { st.0 };
        let layout = match u.2 {
            Some(h) => if kinds[r] == ResourceKind::Texture {
                st.1.update(r, if u.1.writes() { h.layout_after() } else { h.need_layout })
            } else {
                st.1
            },
            None => st.1,
        };
        (written, layout)
    }
}

/// The record after a pass with `uses`, its uses taken in order.
pub open spec fn track_pass(st: TrackerState, uses: Seq<UsageDecl>, kinds: Seq<ResourceKind>) -> TrackerState
    decreases uses.len(),
{
    if uses.len() == 0 {
        st
    } else {
        track_usage(track_pass(st, uses.drop_last(), kinds), uses.last(), kinds)
    }
}

/// The record just before position `j` of `order` runs.
pub open spec fn tracker_before(
    order: Seq<usize>,
    usages: Seq<Seq<UsageDecl>>,
    kinds: Seq<ResourceKind>,
    j: nat,
) -> TrackerState
    decreases j,
{
    if j == 0 {
        initial_tracker(kinds.len())
    } else {
        track_pass(tracker_before(order, usages, kinds, (j - 1) as nat), usages[order[j - 1] as int], kinds)
    }
}

/// The plan for running passes in `order`: each pass with the barriers
/// recorded before it.
pub open spec fn plan_of(order: Seq<usize>, usages: Seq<Seq<UsageDecl>>, kinds: Seq<ResourceKind>) -> Seq<(usize, Seq<Barrier>)> {
    Seq::new(
        order.len(),
        |j: int| (order[j], barriers_for(usages[order[j] as int], kinds, tracker_before(order, usages, kinds, j as nat))),
    )
}

/// How many of `uses` name resource `r`.
pub open spec fn uses_count(uses: Seq<UsageDecl>, r: ResourceId) -> nat
    decreases uses.len(),
{
    if uses.len() == 0 {
        0
    } else {
        uses_count(uses.drop_last(), r) + if uses.last().0 == r { 1nat } else { 0nat }
    }
}

/// Some use of `uses` writes resource `r`.
pub open spec fn writes_resource(uses: Seq<UsageDecl>, r: ResourceId) -> bool {
    exists|i: int| 0 <= i < uses.len() && (#[trigger] uses[i]).0 == r && uses[i].1.writes()
}

/// Some pass before position `j` of `order` writes resource `r`.
pub open spec fn written_before(order: Seq<usize>, usages: Seq<Seq<UsageDecl>>, j: int, r: ResourceId) -> bool {
    exists|i: int| 0 <= i < j && #[trigger] writes_resource(usages[order[i] as int], r)
}

/// The resource a barrier is about.
pub open spec fn barrier_resource(b: Barrier) -> ResourceId {
    match b {
        Barrier::Buffer(r) => r,
        Barrier::Texture { resource, .. } => resource,
    }
}

/// The barriers of `s` that are about resource `r`, in order.
pub open spec fn barriers_on(s: Seq<Barrier>, r: ResourceId) -> Seq<Barrier>
    decreases s.len(),
{
    if s.len() == 0 {
        Seq::empty()
    } else {
        let rest = barriers_on(s.drop_last(), r);
        if barrier_resource(s.last()) == r {
            rest.push(s.last())
        } else {
            rest
        }
    }
}

proof fn lemma_barriers_on_push(s: Seq<Barrier>, b: Barrier, r: ResourceId)
    ensures
        barriers_on(s.push(b), r) == (if barrier_resource(b) == r {
            barriers_on(s, r).push(b)
        } else {
            barriers_on(s, r)
        }),
{
    assert(s.push(b).drop_last() =~= s);
}

pub proof fn lemma_barriers_on_concat(a: Seq<Barrier>, b: Seq<Barrier>, r: ResourceId)
    ensures
        barriers_on(a + b, r) == barriers_on(a, r) + barriers_on(b, r),
    decreases b.len(),
{
    if b.len() == 0 {
        assert(a + b =~= a);
        assert(barriers_on(a, r) + barriers_on(b, r) =~= barriers_on(a, r));
    } else {
        assert((a + b).drop_last() =~= a + b.drop_last());
        lemma_barriers_on_concat(a, b.drop_last(), r);
        assert((a + b).last() == b.last());
        if barrier_resource(b.last()) == r {
            assert(barriers_on(a, r) + barriers_on(b.drop_last(), r).push(b.last())
                =~= (barriers_on(a, r) + barriers_on(b.drop_last(), r)).push(b.last()));
        }
    }
}

/// The buffer barriers a pass records for `r`: one per use of `r` when `r` is
/// a written buffer, none otherwise.
pub proof fn lemma_buffer_barriers_on(uses: Seq<UsageDecl>, kinds: Seq<ResourceKind>, st: TrackerState, r: ResourceId)
    requires
        r.0 < kinds.len(),
        st.0.len() == kinds.len(),
    ensures
        barriers_on(buffer_barriers(uses, kinds, st), r) == (if kinds[r.0 as int] == ResourceKind::Buffer
            && st.0[r.0 as int] {
            Seq::new(uses_count(uses, r), |k: int| Barrier::Buffer(r))
        } else {
            Seq::empty()
        }),
    decreases uses.len(),
{
    if uses.len() > 0 {
        lemma_buffer_barriers_on(uses.drop_last(), kinds, st, r);
        lemma_barriers_on_push(buffer_barriers(uses.drop_last(), kinds, st), Barrier::Buffer(uses.last().0), r);
        if kinds[r.0 as int] == ResourceKind::Buffer && st.0[r.0 as int] {
            if uses.last().0 == r {
                assert(Seq::new(uses_count(uses.drop_last(), r), |k: int| Barrier::Buffer(r)).push(Barrier::Buffer(r))
                    =~= Seq::new(uses_count(uses, r), |k: int| Barrier::Buffer(r)));
            }
        }
    } else {
        assert(Seq::new(0, |k: int| Barrier::Buffer(r)) =~= Seq::<Barrier>::empty());
    }
}

/// The texture barriers a pass records for a resource it names once: the
/// transition of that one use, if any.
pub proof fn lemma_texture_barriers_on(
    uses: Seq<UsageDecl>,
    kinds: Seq<ResourceKind>,
    st: TrackerState,
    r: ResourceId,
    i: int,
)
    requires
        0 <= i < uses.len(),
        uses[i].0 == r,
        uses_count(uses, r) == 1,
    ensures
        barriers_on(texture_barriers(uses, kinds, st), r) == (match texture_transition(uses[i], kinds, st) {
            Some(b) => seq![b],
            None => Seq::empty(),
        }),
    decreases uses.len(),
{
    let rest = uses.drop_last();
    if let Some(b) = texture_transition(uses.last(), kinds, st) {
        lemma_barriers_on_push(texture_barriers(rest, kinds, st), b, r);
    }
    if i == uses.len() - 1 {
        lemma_texture_barriers_none(rest, kinds, st, r);
        if let Some(b) = texture_transition(uses.last(), kinds, st) {
            assert(Seq::<Barrier>::empty().push(b) =~= seq![b]);
        }
    } else {
        assert(rest[i] == uses[i]);
        lemma_uses_count_positive(rest, r, i);
        assert(uses.last().0 != r);
        lemma_texture_barriers_on(rest, kinds, st, r, i);
    }
}

proof fn lemma_uses_count_positive(uses: Seq<UsageDecl>, r: ResourceId, i: int)
    requires
        0 <= i < uses.len(),
        uses[i].0 == r,
    ensures
        uses_count(uses, r) >= 1,
    decreases uses.len(),
{
    if i < uses.len() - 1 {
        assert(uses.drop_last()[i] == uses[i]);
        lemma_uses_count_positive(uses.drop_last(), r, i);
    }
}

/// A pass that does not name `r` records no barrier for it.
pub proof fn lemma_texture_barriers_none(uses: Seq<UsageDecl>, kinds: Seq<ResourceKind>, st: TrackerState, r: ResourceId)
    requires
        uses_count(uses, r) == 0,
    ensures
        barriers_on(texture_barriers(uses, kinds, st), r) == Seq::<Barrier>::empty(),
    decreases uses.len(),
{
    if uses.len() > 0 {
        lemma_texture_barriers_none(uses.drop_last(), kinds, st, r);
        if let Some(b) = texture_transition(uses.last(), kinds, st) {
            lemma_barriers_on_push(texture_barriers(uses.drop_last(), kinds, st), b, r);
        }
    }
}

/// No declaration of `r` in `uses` asks for a layout other than `layout`:
/// each has no hint, or a hint that needs `layout`.
pub open spec fn needs_no_transition(uses: Seq<UsageDecl>, r: ResourceId, layout: ImageLayout) -> bool {
    forall|i: int|
        0 <= i < uses.len() && (#[trigger] uses[i]).0 == r ==> match uses[i].2 {
            Some(h) => h.need_layout == layout,
            None => true,
        }
}

/// A pass none of whose declarations of `r` asks for another layout than the
/// tracked one records no barrier for `r`.
pub proof fn lemma_texture_barriers_not_needed(
    uses: Seq<UsageDecl>,
    kinds: Seq<ResourceKind>,
    st: TrackerState,
    r: ResourceId,
)
    requires
        r.0 < st.1.len(),
        needs_no_transition(uses, r, st.1[r.0 as int]),
    ensures
        barriers_on(texture_barriers(uses, kinds, st), r) == Seq::<Barrier>::empty(),
    decreases uses.len(),
{
    if uses.len() > 0 {
        let rest = uses.drop_last();
        assert forall|i: int| 0 <= i < rest.len() && (#[trigger] rest[i]).0 == r implies match rest[i].2 {
            Some(h) => h.need_layout == st.1[r.0 as int],
            None => true,
        } by {
            assert(rest[i] == uses[i]);
        }
        lemma_texture_barriers_not_needed(rest, kinds, st, r);
        assert(uses[uses.len() - 1] == uses.last());
        if let Some(b) = texture_transition(uses.last(), kinds, st) {
            lemma_barriers_on_push(texture_barriers(rest, kinds, st), b, r);
        }
    }
}

/// A buffer never gets a texture barrier.
pub proof fn lemma_texture_barriers_skip_buffers(
    uses: Seq<UsageDecl>,
    kinds: Seq<ResourceKind>,
    st: TrackerState,
    r: ResourceId,
)
    requires
        r.0 < kinds.len(),
        kinds[r.0 as int] == ResourceKind::Buffer,
    ensures
        barriers_on(texture_barriers(uses, kinds, st), r) == Seq::<Barrier>::empty(),
    decreases uses.len(),
{
    if uses.len() > 0 {
        lemma_texture_barriers_skip_buffers(uses.drop_last(), kinds, st, r);
        if let Some(b) = texture_transition(uses.last(), kinds, st) {
            lemma_barriers_on_push(texture_barriers(uses.drop_last(), kinds, st), b, r);
        }
    }
}

/// The record of writes after a pass: written before, or written by it.
proof fn lemma_track_pass_written(st: TrackerState, uses: Seq<UsageDecl>, kinds: Seq<ResourceKind>)
    requires
        st.0.len() == kinds.len(),
        st.1.len() == kinds.len(),
    ensures
        track_pass(st, uses, kinds).0.len() == kinds.len(),
        track_pass(st, uses, kinds).1.len() == kinds.len(),
        forall|r: usize|
            r < kinds.len() ==> #[trigger] track_pass(st, uses, kinds).0[r as int] == (st.0[r as int]
                || writes_resource(uses, ResourceId(r))),
    decreases uses.len(),
{
    if uses.len() > 0 {
        let rest = uses.drop_last();
        lemma_track_pass_written(st, rest, kinds);
        assert forall|r: usize| r < kinds.len() implies #[trigger] track_pass(st, uses, kinds).0[r as int] == (
        st.0[r as int] || writes_resource(uses, ResourceId(r))) by {
            let rid = ResourceId(r);
            if writes_resource(rest, rid) {
                let w = choose|w: int| 0 <= w < rest.len() && (#[trigger] rest[w]).0 == rid && rest[w].1.writes();
                assert(uses[w] == rest[w]);
            }
            if writes_resource(uses, rid) {
                let w = choose|w: int| 0 <= w < uses.len() && (#[trigger] uses[w]).0 == rid && uses[w].1.writes();
                if w < uses.len() - 1 {
                    assert(rest[w] == uses[w]);
                }
            }
            if uses.last().0 == rid && uses.last().1.writes() {
                assert(uses[uses.len() - 1] == uses.last());
            }
        }
    }
}

/// The tracker's record of writes before position `j`: exactly the resources
/// some earlier pass writes.
pub proof fn lemma_written_before(order: Seq<usize>, usages: Seq<Seq<UsageDecl>>, kinds: Seq<ResourceKind>, j: nat)
    requires
        j <= order.len(),
    ensures
        tracker_before(order, usages, kinds, j).0.len() == kinds.len(),
        tracker_before(order, usages, kinds, j).1.len() == kinds.len(),
        forall|r: usize|
            r < kinds.len() ==> #[trigger] tracker_before(order, usages, kinds, j).0[r as int] == written_before(
                order,
                usages,
                j as int,
                ResourceId(r),
            ),
    decreases j,
{
    if j > 0 {
        let p = (j - 1) as nat;
        lemma_written_before(order, usages, kinds, p);
        lemma_track_pass_written(tracker_before(order, usages, kinds, p), usages[order[p as int] as int], kinds);
        assert forall|r: usize| r < kinds.len() implies #[trigger] tracker_before(order, usages, kinds, j).0[r as int]
            == written_before(order, usages, j as int, ResourceId(r)) by {
            let rid = ResourceId(r);
            if written_before(order, usages, p as int, rid) {
                let i = choose|i: int| 0 <= i < p && #[trigger] writes_resource(usages[order[i] as int], rid);
                assert(0 <= i < j);
            }
            if written_before(order, usages, j as int, rid) {
                let i = choose|i: int| 0 <= i < j && #[trigger] writes_resource(usages[order[i] as int], rid);
                if i < p {
                    assert(written_before(order, usages, p as int, rid));
                }
            }
        }
    } else {
        assert forall|r: usize| r < kinds.len() implies #[trigger] tracker_before(order, usages, kinds, j).0[r as int]
            == written_before(order, usages, j as int, ResourceId(r)) by {}
    }
}

/// Barrier `b` names a registered resource of the kind it is for.
pub open spec fn barrier_fits(b: Barrier, kinds: Seq<ResourceKind>) -> bool {
    let r = barrier_resource(b).0 as int;
    &&& 0 <= r < kinds.len()
    &&& kinds[r] == (if b is Buffer { ResourceKind::Buffer } else { ResourceKind::Texture })
}

/// Every barrier recorded before a pass names a registered resource of its kind.
pub proof fn lemma_barriers_fit(uses: Seq<UsageDecl>, kinds: Seq<ResourceKind>, st: TrackerState)
    ensures
        forall|i: int|
            0 <= i < barriers_for(uses, kinds, st).len() ==> barrier_fits(
                #[trigger] barriers_for(uses, kinds, st)[i],
                kinds,
            ),
{
    lemma_buffer_barriers_fit(uses, kinds, st);
    lemma_texture_barriers_fit(uses, kinds, st);
    let a = buffer_barriers(uses, kinds, st);
    let b = texture_barriers(uses, kinds, st);
    assert forall|i: int| 0 <= i < (a + b).len() implies barrier_fits(#[trigger] (a + b)[i], kinds) by {
        if i < a.len() {
            assert((a + b)[i] == a[i]);
        } else {
            assert((a + b)[i] == b[i - a.len()]);
        }
    }
}

proof fn lemma_buffer_barriers_fit(uses: Seq<UsageDecl>, kinds: Seq<ResourceKind>, st: TrackerState)
    ensures
        forall|i: int|
            0 <= i < buffer_barriers(uses, kinds, st).len() ==> barrier_fits(
                #[trigger] buffer_barriers(uses, kinds, st)[i],
                kinds,
            ),
    decreases uses.len(),
{
    if uses.len() > 0 {
        let rest = buffer_barriers(uses.drop_last(), kinds, st);
        lemma_buffer_barriers_fit(uses.drop_last(), kinds, st);
        let all = buffer_barriers(uses, kinds, st);
        assert forall|i: int| 0 <= i < all.len() implies barrier_fits(#[trigger] all[i], kinds) by {
            if i < rest.len() {
                assert(all[i] == rest[i]);
            }
        }
    }
}

proof fn lemma_texture_barriers_fit(uses: Seq<UsageDecl>, kinds: Seq<ResourceKind>, st: TrackerState)
    ensures
        forall|i: int|
            0 <= i < texture_barriers(uses, kinds, st).len() ==> barrier_fits(
                #[trigger] texture_barriers(uses, kinds, st)[i],
                kinds,
            ),
    decreases uses.len(),
{
    if uses.len() > 0 {
        let rest = texture_barriers(uses.drop_last(), kinds, st);
        lemma_texture_barriers_fit(uses.drop_last(), kinds, st);
        let all = texture_barriers(uses, kinds, st);
        assert forall|i: int| 0 <= i < all.len() implies barrier_fits(#[trigger] all[i], kinds) by {
            if i < rest.len() {
                assert(all[i] == rest[i]);
            }
        }
    }
}

/// The layout a hinted use leaves its texture in: the layout after the pass
/// for a write, the needed layout for a read.
pub open spec fn layout_left(u: UsageDecl) -> ImageLayout {
    match u.2 {
        Some(h) => if u.1.writes() { h.layout_after() } else { h.need_layout },
        None => ImageLayout::Undefined,
    }
}

/// The position of the last use in `uses` that names `r` with a hint.
pub open spec fn last_hinted_use(uses: Seq<UsageDecl>, r: ResourceId) -> Option<int>
    decreases uses.len(),
{
    if uses.len() == 0 {
        None
    } else if uses.last().0 == r && uses.last().2 is Some {
        Some(uses.len() - 1)
    } else {
        last_hinted_use(uses.drop_last(), r)
    }
}

/// The position in `order`, before `j`, of the last pass that names `r` with
/// a hint.
pub open spec fn last_hinted_pass(order: Seq<usize>, usages: Seq<Seq<UsageDecl>>, j: nat, r: ResourceId) -> Option<int>
    decreases j,
{
    if j == 0 {
        None
    } else if last_hinted_use(usages[order[j - 1] as int], r) is Some {
        Some(j - 1)
    } else {
        last_hinted_pass(order, usages, (j - 1) as nat, r)
    }
}

/// The layout the last pass before position `j` that names `r` with a hint
/// left `r` in; `Undefined` when no such pass ran.
pub open spec fn layout_left_before(order: Seq<usize>, usages: Seq<Seq<UsageDecl>>, j: nat, r: ResourceId) -> ImageLayout {
    match last_hinted_pass(order, usages, j, r) {
        Some(i) => {
            let uses = usages[order[i] as int];
            match last_hinted_use(uses, r) {
                Some(k) => layout_left(uses[k]),
                None => ImageLayout::Undefined,
            }
        },
        None => ImageLayout::Undefined,
    }
}

proof fn lemma_last_hinted_use(uses: Seq<UsageDecl>, r: ResourceId)
    ensures
        last_hinted_use(uses, r) matches Some(i) ==> 0 <= i < uses.len() && uses[i].0 == r && uses[i].2 is Some,
    decreases uses.len(),
{
    if uses.len() > 0 {
        lemma_last_hinted_use(uses.drop_last(), r);
    }
}

/// A pass leaves a texture in the layout its last hinted use of it sets, or
/// where it was when it names the texture with no hint.
proof fn lemma_track_pass_layout(st: TrackerState, uses: Seq<UsageDecl>, kinds: Seq<ResourceKind>, r: ResourceId)
    requires
        st.0.len() == kinds.len(),
        st.1.len() == kinds.len(),
        r.0 < kinds.len(),
        kinds[r.0 as int] == ResourceKind::Texture,
    ensures
        track_pass(st, uses, kinds).1[r.0 as int] == (match last_hinted_use(uses, r) {
            Some(i) => layout_left(uses[i]),
            None => st.1[r.0 as int],
        }),
    decreases uses.len(),
{
    if uses.len() > 0 {
        let rest = uses.drop_last();
        lemma_track_pass_layout(st, rest, kinds, r);
        lemma_track_pass_written(st, rest, kinds);
        lemma_last_hinted_use(rest, r);
        let u = uses.last();
        if let Some(i) = last_hinted_use(rest, r) {
            assert(uses[i] == rest[i]);
        }
        if u.0 == r && u.2 is Some {
            assert(uses[uses.len() - 1] == u);
        }
    }
}

/// The tracked layout of a texture before position `j` is the layout the last
/// earlier pass that names it with a hint left it in.
pub proof fn lemma_layout_before(
    order: Seq<usize>,
    usages: Seq<Seq<UsageDecl>>,
    kinds: Seq<ResourceKind>,
    j: nat,
    r: ResourceId,
)
    requires
        j <= order.len(),
        r.0 < kinds.len(),
        kinds[r.0 as int] == ResourceKind::Texture,
    ensures
        tracker_before(order, usages, kinds, j).1[r.0 as int] == layout_left_before(order, usages, j, r),
    decreases j,
{
    if j > 0 {
        let p = (j - 1) as nat;
        lemma_layout_before(order, usages, kinds, p, r);
        lemma_written_before(order, usages, kinds, p);
        lemma_track_pass_layout(tracker_before(order, usages, kinds, p), usages[order[p as int] as int], kinds, r);
    }
}

/// The barriers that a pass with `uses` needs in state (`written`, `layouts`).
pub fn collect_barriers(
    uses: &Vec<UsageDecl>,
    resources: &Vec<ResourceHandle>,
    written: &Vec<bool>,
    layouts: &Vec<ImageLayout>,
) -> (r: Vec<Barrier>)
    requires
        written@.len() == resources@.len(),
        layouts@.len() == resources@.len(),
    ensures
        r@ == barriers_for(uses@, kinds_of(resources@), (written@, layouts@)),
{
    let ghost kinds = kinds_of(resources@);
    let ghost st = (written@, layouts@);
    let mut buffers: Vec<Barrier> = Vec::new();
    let mut i: usize = 0;
    while i < uses.len()
        invariant
            i <= uses@.len(),
            written@.len() == resources@.len(),
            kinds == kinds_of(resources@),
            st == (written@, layouts@),
            buffers@ == buffer_barriers(uses@.subrange(0, i as int), kinds, st),
        decreases uses.len() - i,
    {
        let (rid, _, _) = uses[i];
        let r = rid.0;
        proof {
            assert(uses@.subrange(0, i + 1).drop_last() =~= uses@.subrange(0, i as int));
        }
        if r < resources.len() && written[r] {
            if let ResourceHandle::Buffer(_) = &resources[r] {
                buffers.push(Barrier::Buffer(rid));
            }
        }
        i = i + 1;
    }
    let mut textures: Vec<Barrier> = Vec::new();
    let mut i: usize = 0;
    while i < uses.len()
        invariant
            i <= uses@.len(),
            written@.len() == resources@.len(),
            layouts@.len() == resources@.len(),
            kinds == kinds_of(resources@),
            st == (written@, layouts@),
            textures@ == texture_barriers(uses@.subrange(0, i as int), kinds, st),
        decreases uses.len() - i,
    {
        let (rid, _, hint) = uses[i];
        let r = rid.0;
        proof {
            assert(uses@.subrange(0, i + 1).drop_last() =~= uses@.subrange(0, i as int));
        }
        if let Some(h) = hint {
            if r < resources.len() && written[r] && layouts[r] != h.need_layout {
                if let ResourceHandle::Texture(_) = &resources[r] {
                    textures.push(Barrier::Texture { resource: rid, old_layout: layouts[r], new_layout: h.need_layout });
                }
            }
        }
        i = i + 1;
    }
    proof {
        assert(uses@.subrange(0, uses@.len() as int) =~= uses@);
    }
    buffers.append(&mut textures);
    buffers
}

/// Records in (`written`, `layouts`) what a pass with `uses` did.
pub fn track_pass_uses(
    uses: &Vec<UsageDecl>,
    resources: &Vec<ResourceHandle>,
    written: &mut Vec<bool>,
    layouts: &mut Vec<ImageLayout>,
)
    requires
        old(written)@.len() == resources@.len(),
        old(layouts)@.len() == resources@.len(),
    ensures
        final(written)@.len() == resources@.len(),
        final(layouts)@.len() == resources@.len(),
        (final(written)@, final(layouts)@) == track_pass((old(written)@, old(layouts)@), uses@, kinds_of(resources@)),
{
    let ghost kinds = kinds_of(resources@);
    let ghost st0 = (written@, layouts@);
    let mut i: usize = 0;
    while i < uses.len()
        invariant
            i <= uses@.len(),
            written@.len() == resources@.len(),
            layouts@.len() == resources@.len(),
            kinds == kinds_of(resources@),
            (written@, layouts@) == track_pass(st0, uses@.subrange(0, i as int), kinds),
        decreases uses.len() - i,
    {
        let (rid, usage, hint) = uses[i];
        let r = rid.0;
        proof {
            assert(uses@.subrange(0, i + 1).drop_last() =~= uses@.subrange(0, i as int));
        }
        if r < resources.len() {
            let is_texture = match &resources[r] {
                ResourceHandle::Texture(_) => true,
                ResourceHandle::Buffer(_) => false,
            };
            if usage.is_write() {
                written.set(r, true);
                if let Some(h) = hint {
                    if is_texture {
                        let after = match h.after_pass_layout {
                            Some(l) => l,
                            None => h.need_layout,
                        };
                        layouts.set(r, after);
                    }
                }
            } else if let Some(h) = hint {
                if is_texture {
                    layouts.set(r, h.need_layout);
                }
            }
        }
        i = i + 1;
    }
    proof {
        assert(uses@.subrange(0, uses@.len() as int) =~= uses@);
    }
}

} // verus!
