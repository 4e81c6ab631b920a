//! The frame render graph: passes with declared resource usages, explicit
//! ordering edges, a scheduler and the hazard tracker that inserts barriers.
//!
//! Passes run in a topological order of the edges. Among passes that are ready
//! at the same time, the one registered first runs first. Buffer barriers are
//! inserted whenever a buffer written by an earlier pass is used again; texture
//! barriers only where the using pass supplies a [`TextureBarrierHint`] whose
//! layout differs from the texture's tracked layout.
use vstd::prelude::*;
use crate::rhi::{Buffer, CommandBuffer, CommandEncoder, Device, ImageLayout, Texture};
use crate::schedule::{has_cycle, has_topological_order, is_topological_order, lemma_schedule_correct, schedule, topological_order};
use crate::tracking::{
    barrier_fits, collect_barriers, kinds_of, lemma_barriers_fit, plan_of, track_pass_uses, tracker_before,
    written_before, UsageDecl,
};

verus! {

/// Identifier of a pass in one graph: registration index, from 0.
#[derive(Debug, Clone, Copy, PartialEq, Eq, Hash, Structural)]
pub struct NodeId(pub usize);

/// Identifier of a registered buffer or texture: registration index, from 0.
#[derive(Debug, Clone, Copy, PartialEq, Eq, Hash, Structural)]
pub struct ResourceId(pub usize);

/// How a pass uses a resource.
#[derive(Debug, Clone, Copy, PartialEq, Eq, Structural)]
pub enum ResourceUsage {
    Read,
    Write,
    ReadWrite,
}

impl ResourceUsage {
    pub open spec fn writes(self) -> bool {
        self is Write || self is ReadWrite
    }

    pub open spec fn reads(self) -> bool {
        self is Read || self is ReadWrite
    }

    /// True if this usage may write the resource.
    pub fn is_write(&self) -> (r: bool)
        ensures
            r == self.writes(),
    {
        match self {
            ResourceUsage::Read => false,
            _ => true,
        }
    }

    /// True if this usage reads the resource.
    pub fn is_read(&self) -> (r: bool)
        ensures
            r == self.reads(),
    {
        match self {
            ResourceUsage::Write => false,
            _ => true,
        }
    }
}

/// Layout requirements of a pass on a texture, which let the graph insert the
/// layout transition itself.
#[derive(Debug, Clone, Copy, PartialEq, Eq, Structural)]
pub struct TextureBarrierHint {
    /// Layout the texture must be in when the pass runs.
    pub need_layout: ImageLayout,
    /// Layout a writing pass leaves the texture in; `None` means `need_layout`.
    pub after_pass_layout: Option<ImageLayout>,
}

impl TextureBarrierHint {
    /// The layout a writing pass leaves the texture in.
    pub open spec fn layout_after(self) -> ImageLayout {
        match self.after_pass_layout {
            Some(l) => l,
            None => self.need_layout,
        }
    }
}

/// Kind of a registered resource.
#[derive(Debug, Clone, Copy, PartialEq, Eq, Structural)]
pub enum ResourceKind {
    Buffer,
    Texture,
}

/// A registered resource. The graph references the GPU object; it neither
/// creates nor destroys it.
pub enum ResourceHandle {
    Buffer(Box<dyn Buffer>),
    Texture(Box<dyn Texture>),
}

impl ResourceHandle {
    pub open spec fn spec_kind(&self) -> ResourceKind {
        match self {
            ResourceHandle::Buffer(_) => ResourceKind::Buffer,
            ResourceHandle::Texture(_) => ResourceKind::Texture,
        }
    }

    pub fn kind(&self) -> (r: ResourceKind)
        ensures
            r == self.spec_kind(),
    {
        match self {
            ResourceHandle::Buffer(_) => ResourceKind::Buffer,
            ResourceHandle::Texture(_) => ResourceKind::Texture,
        }
    }
}

/// A unit of GPU work. `resources` holds every registered resource, indexed by
/// [`ResourceId`].
pub trait RenderGraphNode {
    fn execute(&self, device: &dyn Device, resources: &[ResourceHandle]) -> Vec<Box<dyn CommandBuffer>>;
}

/// A synchronization barrier the graph inserts before a pass.
#[derive(Debug, Clone, Copy, PartialEq, Eq, Structural)]
pub enum Barrier {
    /// Whole-buffer barrier after an earlier write.
    Buffer(ResourceId),
    /// Layout transition of a texture.
    Texture { resource: ResourceId, old_layout: ImageLayout, new_layout: ImageLayout },
}

/// One entry of an execution plan: the barriers to record, then the pass.
#[derive(Debug, Clone)]
pub struct PassStep {
    pub node: NodeId,
    pub barriers: Vec<Barrier>,
}

impl PassStep {
    pub open spec fn view(&self) -> (usize, Seq<Barrier>) {
        (self.node.0, self.barriers@)
    }
}

/// The plan `steps` stands for, as (pass index, barriers) pairs.
pub open spec fn steps_view(steps: Seq<PassStep>) -> Seq<(usize, Seq<Barrier>)> {
    steps.map_values(|s: PassStep| s.view())
}

/// How many of the first `j` steps of `plan` record barriers; each of them
/// gets a command buffer of its own.
pub open spec fn barrier_buffer_count(plan: Seq<(usize, Seq<Barrier>)>, j: int) -> nat
    decreases j,
{
    if j <= 0 {
        0
    } else {
        barrier_buffer_count(plan, j - 1) + if plan[j - 1].1.len() > 0 { 1nat } else { 0nat }
    }
}

/// Why a graph could not be executed.
#[derive(Debug)]
pub enum GraphError {
    /// The explicit edges form a cycle; nothing was recorded.
    Cycle,
    /// The device failed to open or finish a recording scope.
    Backend(String),
}

/// Builds and executes the render graph of one frame.
///
/// Node and resource ids are registration indices, so the next id of each is
/// the number registered so far.
pub struct RenderGraph {
    nodes: Vec<Box<dyn RenderGraphNode>>,
    /// Declared uses of each node, by node index.
    node_resource_usage: Vec<Vec<UsageDecl>>,
    /// `(before, after)`: `before` runs before `after`.
    edges: Vec<(NodeId, NodeId)>,
    /// Registered resources, by resource index.
    resources: Vec<ResourceHandle>,
}

impl RenderGraph {
    /// Number of registered passes.
    pub closed spec fn node_count(&self) -> nat {
        self.node_resource_usage@.len()
    }

    /// The explicit edges, in the order they were added.
    pub closed spec fn edge_list(&self) -> Seq<(NodeId, NodeId)> {
        self.edges@
    }

    /// The declared uses of each pass, by node index.
    pub closed spec fn usage_table(&self) -> Seq<Seq<UsageDecl>> {
        self.node_resource_usage@.map_values(|u: Vec<UsageDecl>| u@)
    }

    /// The registered passes, by node index.
    pub closed spec fn passes(&self) -> Seq<Box<dyn RenderGraphNode>> {
        self.nodes@
    }

    /// The registered resource handles, by resource index.
    pub closed spec fn handles(&self) -> Seq<ResourceHandle> {
        self.resources@
    }

    /// The kind of each registered resource, by resource index.
    pub closed spec fn resource_kinds(&self) -> Seq<ResourceKind> {
        kinds_of(self.resources@)
    }

    /// Each registered pass has its declared uses, and pass ids fit in `usize`.
    pub closed spec fn wf(&self) -> bool {
        &&& self.nodes@.len() == self.node_resource_usage@.len()
        &&& self.node_resource_usage@.len() <= usize::MAX
    }

    /// In a well-formed graph the usage table has one entry per pass, so the
    /// uses given to `add_node` sit at the returned id.
    pub proof fn lemma_counts(&self)
        requires
            self.wf(),
        ensures
            self.usage_table().len() == self.node_count(),
            self.passes().len() == self.node_count(),
            self.node_count() <= usize::MAX,
            self.resource_kinds() == kinds_of(self.handles()),
    {
    }

    /// The edges admit an execution order.
    pub open spec fn is_schedulable(&self) -> bool {
        has_topological_order(self.node_count(), self.edge_list())
    }

    /// The order in which the passes run.
    pub open spec fn spec_order(&self) -> Seq<usize> {
        schedule(self.node_count(), self.edge_list())
    }

    /// The declared uses of the pass at position `j` of the order.
    pub open spec fn uses_at(&self, j: int) -> Seq<UsageDecl> {
        self.usage_table()[self.spec_order()[j] as int]
    }

    /// The tracked layout of resource `r` just before position `j` of the order runs.
    pub open spec fn layout_before(&self, j: int, r: ResourceId) -> ImageLayout {
        tracker_before(self.spec_order(), self.usage_table(), self.resource_kinds(), j as nat).1[r.0 as int]
    }

    /// Some pass before position `j` of the order writes resource `r`.
    pub open spec fn written_before(&self, j: int, r: ResourceId) -> bool {
        written_before(self.spec_order(), self.usage_table(), j, r)
    }

    /// What executing the graph does: each pass in order, with the barriers
    /// recorded before it.
    pub open spec fn spec_plan(&self) -> Seq<(usize, Seq<Barrier>)> {
        plan_of(self.spec_order(), self.usage_table(), self.resource_kinds())
    }

    /// An empty graph.
    pub fn new() -> (r: Self)
        ensures
            r.wf(),
            r.node_count() == 0,
            r.edge_list() == Seq::<(NodeId, NodeId)>::empty(),
            r.usage_table() == Seq::<Seq<UsageDecl>>::empty(),
            r.resource_kinds() == Seq::<ResourceKind>::empty(),
            r.passes() == Seq::<Box<dyn RenderGraphNode>>::empty(),
            r.handles() == Seq::<ResourceHandle>::empty(),
    {
        let r = RenderGraph {
            nodes: Vec::new(),
            node_resource_usage: Vec::new(),
            edges: Vec::new(),
            resources: Vec::new(),
        };
        proof {
            assert(r.usage_table() =~= Seq::<Seq<UsageDecl>>::empty());
            assert(r.resource_kinds() =~= Seq::<ResourceKind>::empty());
        }
        r
    }

    /// Registers a pass with the resources it uses and returns its id. For a
    /// texture, a hint lets the graph insert the layout transition itself.
    /// A use that names an unregistered resource is ignored.
    pub fn add_node(&mut self, node: Box<dyn RenderGraphNode>, resource_usage: Vec<UsageDecl>) -> (id: NodeId)
        requires
            old(self).wf(),
            old(self).node_count() < usize::MAX,
        ensures
            final(self).wf(),
            id.0 == old(self).node_count(),
            final(self).usage_table().len() == final(self).node_count(),
            final(self).usage_table()[id.0 as int] == resource_usage@,
            final(self).node_count() == old(self).node_count() + 1,
            final(self).usage_table() == old(self).usage_table().push(resource_usage@),
            final(self).passes() == old(self).passes().push(node),
            final(self).edge_list() == old(self).edge_list(),
            final(self).handles() == old(self).handles(),
            final(self).resource_kinds() == old(self).resource_kinds(),
    {
        let id = NodeId(self.node_resource_usage.len());
        proof {
            lemma_push_len(self.nodes@, node);
        }
        self.nodes.push(node);
        self.node_resource_usage.push(resource_usage);
        proof {
            assert(self.usage_table() =~= old(self).usage_table().push(resource_usage@));
        }
        id
    }

    /// Adds a dependency: `before` runs before `after`. An edge naming a pass
    /// that is not registered when the graph is scheduled is ignored.
    pub fn add_edge(&mut self, before: NodeId, after: NodeId)
        requires
            old(self).wf(),
        ensures
            final(self).wf(),
            final(self).edge_list() == old(self).edge_list().push((before, after)),
            final(self).node_count() == old(self).node_count(),
            final(self).usage_table() == old(self).usage_table(),
            final(self).passes() == old(self).passes(),
            final(self).handles() == old(self).handles(),
            final(self).resource_kinds() == old(self).resource_kinds(),
    {
        self.edges.push((before, after));
    }

    /// Registers a resource for use by passes and returns its id.
    pub fn add_resource(&mut self, handle: ResourceHandle) -> (id: ResourceId)
        requires
            old(self).wf(),
        ensures
            final(self).wf(),
            id.0 == old(self).handles().len(),
            old(self).handles().len() == old(self).resource_kinds().len(),
            final(self).handles() == old(self).handles().push(handle),
            final(self).resource_kinds() == old(self).resource_kinds().push(handle.spec_kind()),
            final(self).node_count() == old(self).node_count(),
            final(self).usage_table() == old(self).usage_table(),
            final(self).passes() == old(self).passes(),
            final(self).edge_list() == old(self).edge_list(),
    {
        let id = ResourceId(self.resources.len());
        let ghost kind = handle.spec_kind();
        self.resources.push(handle);
        proof {
            assert(self.resource_kinds() =~= old(self).resource_kinds().push(kind));
        }
        id
    }

    /// Schedules the passes and works out the barriers before each one,
    /// without touching any device. `Cycle` when the edges form a cycle.
    pub fn plan(&self) -> (r: Result<Vec<PassStep>, GraphError>)
        ensures
            match r {
                Ok(steps) => steps_view(steps@) == self.spec_plan()
                    && is_topological_order(self.node_count(), self.edge_list(), self.spec_order()),
                Err(e) => e is Cycle,
            },
            r is Ok <==> self.is_schedulable(),
            r is Err <==> has_cycle(self.node_count(), self.edge_list()),
    {
        let order = match topological_order(self.node_resource_usage.len(), &self.edges) {
            Ok(o) => o,
            Err(e) => return Err(e),
        };
        let ghost usages = self.usage_table();
        let ghost kinds = self.resource_kinds();
        let n_res = self.resources.len();
        let mut written: Vec<bool> = Vec::new();
        let mut layouts: Vec<ImageLayout> = Vec::new();
        let mut i: usize = 0;
        while i < n_res
            invariant
                i <= n_res,
                n_res == self.resources@.len(),
                written@ == Seq::new(i as nat, |k: int| false),
                layouts@ == Seq::new(i as nat, |k: int| ImageLayout::Undefined),
            decreases n_res - i,
        {
            written.push(false);
            layouts.push(ImageLayout::Undefined);
            i = i + 1;
        }
        proof {
            assert((written@, layouts@) == tracker_before(order@, usages, kinds, 0));
        }
        let mut steps: Vec<PassStep> = Vec::new();
        let mut j: usize = 0;
        while j < order.len()
            invariant
                j <= order@.len(),
                usages == self.usage_table(),
                kinds == self.resource_kinds(),
                is_topological_order(self.node_count(), self.edge_list(), order@),
                written@.len() == self.resources@.len(),
                layouts@.len() == self.resources@.len(),
                (written@, layouts@) == tracker_before(order@, usages, kinds, j as nat),
                steps@.len() == j,
                steps_view(steps@) == plan_of(order@, usages, kinds).subrange(0, j as int),
            decreases order.len() - j,
        {
            let idx = order[j];
            proof {
                assert(order@[j as int] < self.node_count());
            }
            let uses = &self.node_resource_usage[idx];
            let barriers = collect_barriers(uses, &self.resources, &written, &layouts);
            let ghost before = steps@;
            steps.push(PassStep { node: NodeId(idx), barriers });
            track_pass_uses(uses, &self.resources, &mut written, &mut layouts);
            proof {
                assert(usages[idx as int] == uses@);
                assert(steps_view(steps@) =~= plan_of(order@, usages, kinds).subrange(0, j + 1)) by {
                    assert(steps@ == before.push(steps@[j as int]));
                    assert forall|k: int| 0 <= k < j implies steps_view(steps@)[k] == steps_view(before)[k] by {
                        assert(steps@[k] == before[k]);
                    }
                }
            }
            j = j + 1;
        }
        proof {
            assert(plan_of(order@, usages, kinds).subrange(0, order@.len() as int) =~= plan_of(order@, usages, kinds));
        }
        Ok(steps)
    }

    /// Runs the graph: schedules the passes, records the barriers each one
    /// needs into a command buffer of their own just before it, runs it, and
    /// returns every command buffer in submission order. `Cycle` when the edges
    /// form a cycle, before any device call; `Backend` when the device fails
    /// to open or finish a barrier recording, which ends the walk.
    pub fn execute(&self, device: &dyn Device) -> (r: Result<Vec<Box<dyn CommandBuffer>>, GraphError>)
        requires
            self.wf(),
        ensures
            r matches Err(GraphError::Cycle) <==> !self.is_schedulable(),
            r matches Err(GraphError::Cycle) <==> has_cycle(self.node_count(), self.edge_list()),
            r matches Err(GraphError::Backend(_)) ==> self.is_schedulable(),
            r matches Ok(cmds) ==> cmds@.len() >= barrier_buffer_count(self.spec_plan(), self.spec_plan().len() as int),
            self.is_schedulable() && (forall|k: int|
                0 <= k < self.spec_plan().len() ==> (#[trigger] self.spec_plan()[k]).1.len() == 0) ==> r is Ok,
    {
        let steps = match self.plan() {
            Ok(s) => s,
            Err(e) => return Err(e),
        };
        let pass_count = self.node_resource_usage.len();
        proof {
            assert(pass_count == self.node_count());
            lemma_plan_nodes_in_range(self);
            lemma_plan_barriers_fit(self);
        }
        let mut all_cmds: Vec<Box<dyn CommandBuffer>> = Vec::new();
        let mut j: usize = 0;
        while j < steps.len()
            invariant
                self.is_schedulable(),
                j <= steps@.len(),
                steps_view(steps@) == self.spec_plan(),
                self.wf(),
                !has_cycle(self.node_count(), self.edge_list()),
                all_cmds@.len() >= barrier_buffer_count(self.spec_plan(), j as int),
                forall|k: int| 0 <= k < self.spec_plan().len() ==> #[trigger] self.spec_plan()[k].0 < self.node_count(),
                forall|k: int, i: int|
                    0 <= k < self.spec_plan().len() && 0 <= i < self.spec_plan()[k].1.len() ==> barrier_fits(
                        #[trigger] self.spec_plan()[k].1[i],
                        self.resource_kinds(),
                    ),
            decreases steps.len() - j,
        {
            let step = &steps[j];
            proof {
                assert(steps_view(steps@)[j as int] == step.view());
                assert(self.spec_plan()[j as int].0 == step.node.0);
                assert(step.node.0 < self.nodes@.len());
            }
            if step.barriers.len() > 0 {
                let mut encoder = match device.create_command_encoder() {
                    Ok(e) => e,
                    Err(msg) => return Err(backend_error(msg)),
                };
                proof {
                    assert forall|i: int| 0 <= i < step.barriers@.len() implies barrier_fits(
                        #[trigger] step.barriers@[i],
                        self.resource_kinds(),
                    ) by {
                        assert(step.barriers@[i] == self.spec_plan()[j as int].1[i]);
                    }
                }
                let mut b: usize = 0;
                while b < step.barriers.len()
                    invariant
                        step.view() == self.spec_plan()[j as int],
                        forall|i: int|
                            0 <= i < step.barriers@.len() ==> barrier_fits(#[trigger] step.barriers@[i], self.resource_kinds()),
                    decreases step.barriers.len() - b,
                {
                    self.record_barrier(&mut encoder, step.barriers[b]);
                    b = b + 1;
                }
                if let Err(e) = push_barrier_buffer(&mut all_cmds, encoder.finish()) {
                    return Err(e);
                }
            }
            let cmds = self.nodes[step.node.0].execute(device, self.resources.as_slice());
            append_pass_commands(&mut all_cmds, cmds);
            j = j + 1;
        }
        Ok(all_cmds)
    }
}

impl RenderGraph {
    /// Records a planned barrier: a buffer barrier covers the whole buffer,
    /// from byte 0 to the size the buffer reports; a texture barrier moves the
    /// texture from the planned old layout to the planned new one.
    fn record_barrier(&self, encoder: &mut Box<dyn CommandEncoder>, barrier: Barrier)
        requires
            barrier_fits(barrier, self.resource_kinds()),
    {
        match barrier {
            Barrier::Buffer(rid) => match &self.resources[rid.0] {
                ResourceHandle::Buffer(buffer) => {
                    let size = buffer.size();
                    encoder.pipeline_barrier_buffer(&**buffer, 0, size);
                },
                ResourceHandle::Texture(_) => {
                    // a buffer barrier always names a registered buffer
                    proof {
                        assert(false);
                    }
                },
            },
            Barrier::Texture { resource, old_layout, new_layout } => match &self.resources[resource.0] {
                ResourceHandle::Texture(texture) => {
                    encoder.pipeline_barrier_texture(&**texture, old_layout, new_layout);
                },
                ResourceHandle::Buffer(_) => {
                    // a texture barrier always names a registered texture
                    proof {
                        assert(false);
                    }
                },
            },
        }
    }
}

/// The graph's error for a device failure with message `msg`.
pub fn backend_error(msg: String) -> (e: GraphError)
    ensures
        e == GraphError::Backend(msg),
{
    GraphError::Backend(msg)
}

/// Takes the result of finishing a barrier recording: the command buffer goes
/// at the end of `out`; a failure becomes `Backend` and leaves `out` as it was.
pub fn push_barrier_buffer(out: &mut Vec<Box<dyn CommandBuffer>>, finished: Result<Box<dyn CommandBuffer>, String>) -> (r:
    Result<(), GraphError>)
    ensures
        match finished {
            Ok(cmd) => r is Ok && final(out)@ == old(out)@.push(cmd) && final(out)@.len() == old(out)@.len() + 1,
            Err(msg) => r == Err::<(), GraphError>(GraphError::Backend(msg)) && final(out)@ == old(out)@,
        },
{
    match finished {
        Ok(cmd) => {
            proof {
                lemma_push_len(out@, cmd);
            }
            out.push(cmd);
            Ok(())
        },
        Err(msg) => Err(backend_error(msg)),
    }
}

/// Puts the command buffers a pass returned at the end of `out`, in order.
pub fn append_pass_commands(out: &mut Vec<Box<dyn CommandBuffer>>, cmds: Vec<Box<dyn CommandBuffer>>)
    ensures
        final(out)@ == old(out)@ + cmds@,
        final(out)@.len() == old(out)@.len() + cmds@.len(),
{
    let mut cmds = cmds;
    proof {
        lemma_concat_len(out@, cmds@);
    }
    out.append(&mut cmds);
}

impl Default for RenderGraph {
    fn default() -> (r: Self)
        ensures
            r.wf(),
            r.node_count() == 0,
            r.edge_list() == Seq::<(NodeId, NodeId)>::empty(),
            r.usage_table() == Seq::<Seq<UsageDecl>>::empty(),
            r.resource_kinds() == Seq::<ResourceKind>::empty(),
            r.passes() == Seq::<Box<dyn RenderGraphNode>>::empty(),
            r.handles() == Seq::<ResourceHandle>::empty(),
    {
        Self::new()
    }
}

/// Every pass named by the plan of a schedulable graph is registered.
proof fn lemma_plan_nodes_in_range(g: &RenderGraph)
    requires
        g.is_schedulable(),
        g.node_count() <= usize::MAX,
    ensures
        forall|k: int| 0 <= k < g.spec_plan().len() ==> #[trigger] g.spec_plan()[k].0 < g.node_count(),
{
    lemma_schedule_correct(g.node_count(), g.edge_list());
}

/// Every barrier in the plan names a registered resource of its kind.
proof fn lemma_plan_barriers_fit(g: &RenderGraph)
    ensures
        forall|k: int, i: int|
            0 <= k < g.spec_plan().len() && 0 <= i < g.spec_plan()[k].1.len() ==> barrier_fits(
                #[trigger] g.spec_plan()[k].1[i],
                g.resource_kinds(),
            ),
{
    assert forall|k: int, i: int|
        0 <= k < g.spec_plan().len() && 0 <= i < g.spec_plan()[k].1.len() implies barrier_fits(
            #[trigger] g.spec_plan()[k].1[i],
            g.resource_kinds(),
        ) by {
        lemma_barriers_fit(
            g.uses_at(k),
            g.resource_kinds(),
            tracker_before(g.spec_order(), g.usage_table(), g.resource_kinds(), k as nat),
        );
    }
}

/// The length of a sequence after a push. Stated for any element type, so
/// that it also covers boxed trait objects, whose values the solver knows
/// nothing of.
proof fn lemma_push_len<A>(s: Seq<A>, a: A)
    ensures
        s.push(a).len() == s.len() + 1,
{
}

/// The length of a concatenation, for any element type.
proof fn lemma_concat_len<A>(a: Seq<A>, b: Seq<A>)
    ensures
        (a + b).len() == a.len() + b.len(),
{
}

} // verus!
