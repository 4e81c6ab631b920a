use std::cell::RefCell;
use std::rc::Rc;

use lume_graph::graph::{
    Barrier, GraphError, NodeId, RenderGraph, RenderGraphNode, ResourceHandle, ResourceId, ResourceKind,
    ResourceUsage, TextureBarrierHint,
};
use lume_graph::rhi::{Buffer, CommandBuffer, CommandEncoder, Device, GpuResourceId, ImageLayout, Texture, TextureDimension, TextureFormat};
use lume_graph::schedule::topological_order;
use lume_graph::tracking::UsageDecl;

type Log = Rc<RefCell<Vec<String>>>;

struct FakeBuffer {
    id: u64,
    size: u64,
}

impl Buffer for FakeBuffer {
    fn id(&self) -> GpuResourceId {
        self.id
    }
    fn size(&self) -> u64 {
        self.size
    }
    fn host_visible(&self) -> bool {
        true
    }
}

struct FakeTexture {
    id: u64,
}

impl Texture for FakeTexture {
    fn id(&self) -> GpuResourceId {
        self.id
    }
    fn format(&self) -> TextureFormat {
        TextureFormat::Rgba8Unorm
    }
    fn size(&self) -> (u32, u32, u32) {
        (4, 4, 1)
    }
    fn dimension(&self) -> TextureDimension {
        TextureDimension::D2
    }
    fn mip_level_count(&self) -> u32 {
        1
    }
}

struct FakeCommandBuffer;

impl CommandBuffer for FakeCommandBuffer {}

struct FakeEncoder {
    log: Log,
    recorded: Vec<String>,
}

impl CommandEncoder for FakeEncoder {
    fn pipeline_barrier_texture(&mut self, texture: &dyn Texture, old_layout: ImageLayout, new_layout: ImageLayout) {
        self.recorded.push(format!("texture {} {:?}->{:?}", texture.id(), old_layout, new_layout));
    }
    fn pipeline_barrier_buffer(&mut self, buffer: &dyn Buffer, offset: u64, size: u64) {
        self.recorded.push(format!("buffer {} {}+{}", buffer.id(), offset, size));
    }
    fn finish(self: Box<Self>) -> Result<Box<dyn CommandBuffer>, String> {
        self.log.borrow_mut().push(format!("barriers[{}]", self.recorded.join(", ")));
        Ok(Box::new(FakeCommandBuffer))
    }
}

struct FakeDevice {
    log: Log,
    fail: bool,
}

impl Device for FakeDevice {
    fn create_command_encoder(&self) -> Result<Box<dyn CommandEncoder>, String> {
        if self.fail {
            return Err("no encoder".to_string());
        }
        Ok(Box::new(FakeEncoder { log: self.log.clone(), recorded: Vec::new() }))
    }
}

struct NamedPass {
    name: &'static str,
    log: Log,
}

impl RenderGraphNode for NamedPass {
    fn execute(&self, _device: &dyn Device, resources: &[ResourceHandle]) -> Vec<Box<dyn CommandBuffer>> {
        self.log.borrow_mut().push(format!("{} sees {}", self.name, resources.len()));
        vec![Box::new(FakeCommandBuffer)]
    }
}

fn new_log() -> Log {
    Rc::new(RefCell::new(Vec::new()))
}

fn pass(name: &'static str, log: &Log) -> Box<dyn RenderGraphNode> {
    Box::new(NamedPass { name, log: log.clone() })
}

fn buffer(id: u64, size: u64) -> ResourceHandle {
    ResourceHandle::Buffer(Box::new(FakeBuffer { id, size }))
}

fn texture(id: u64) -> ResourceHandle {
    ResourceHandle::Texture(Box::new(FakeTexture { id }))
}

fn hint(need: ImageLayout, after: Option<ImageLayout>) -> Option<TextureBarrierHint> {
    Some(TextureBarrierHint { need_layout: need, after_pass_layout: after })
}

fn log_of(log: &Log) -> Vec<String> {
    log.borrow().clone()
}

#[test]
fn scenario_independent_passes_run_without_barriers() {
    let log = new_log();
    let mut g = RenderGraph::new();
    let x = g.add_resource(buffer(10, 64));
    let y = g.add_resource(buffer(11, 64));
    let z = g.add_resource(texture(12));
    g.add_node(pass("A", &log), vec![(x, ResourceUsage::Write, None)]);
    g.add_node(pass("B", &log), vec![(y, ResourceUsage::Write, None)]);
    g.add_node(pass("C", &log), vec![(z, ResourceUsage::Write, hint(ImageLayout::ColorAttachment, None))]);
    let device = FakeDevice { log: log.clone(), fail: false };
    let cmds = g.execute(&device).expect("no cycle");
    assert_eq!(cmds.len(), 3);
    assert_eq!(log_of(&log), vec!["A sees 3", "B sees 3", "C sees 3"]);
    let steps = g.plan().expect("no cycle");
    assert_eq!(steps.len(), 3);
    assert!(steps.iter().all(|s| s.barriers.is_empty()));
}

#[test]
fn scenario_buffer_write_then_read_gets_one_barrier() {
    let log = new_log();
    let mut g = RenderGraph::new();
    let x = g.add_resource(buffer(7, 256));
    let a = g.add_node(pass("A", &log), vec![(x, ResourceUsage::Write, None)]);
    let b = g.add_node(pass("B", &log), vec![(x, ResourceUsage::Read, None)]);
    g.add_edge(a, b);
    let device = FakeDevice { log: log.clone(), fail: false };
    let cmds = g.execute(&device).expect("no cycle");
    assert_eq!(cmds.len(), 3);
    assert_eq!(log_of(&log), vec!["A sees 1", "barriers[buffer 7 0+256]", "B sees 1"]);
}

#[test]
fn scenario_cycle_is_rejected_before_any_work() {
    let log = new_log();
    let mut g = RenderGraph::new();
    let a = g.add_node(pass("A", &log), vec![]);
    let b = g.add_node(pass("B", &log), vec![]);
    let c = g.add_node(pass("C", &log), vec![]);
    g.add_edge(a, b);
    g.add_edge(b, c);
    g.add_edge(c, a);
    let device = FakeDevice { log: log.clone(), fail: false };
    let r = g.execute(&device);
    assert!(matches!(r, Err(GraphError::Cycle)));
    assert!(log_of(&log).is_empty());
    assert!(matches!(g.plan(), Err(GraphError::Cycle)));
}

#[test]
fn scenario_texture_left_in_needed_layout_needs_no_barrier() {
    let log = new_log();
    let mut g = RenderGraph::new();
    let t = g.add_resource(texture(3));
    let a = g.add_node(
        pass("A", &log),
        vec![(t, ResourceUsage::Write, hint(ImageLayout::ColorAttachment, Some(ImageLayout::ShaderReadOnly)))],
    );
    let b = g.add_node(pass("B", &log), vec![(t, ResourceUsage::Read, hint(ImageLayout::ShaderReadOnly, None))]);
    g.add_edge(a, b);
    let device = FakeDevice { log: log.clone(), fail: false };
    let cmds = g.execute(&device).expect("no cycle");
    assert_eq!(cmds.len(), 2);
    assert_eq!(log_of(&log), vec!["A sees 1", "B sees 1"]);
}

#[test]
fn scenario_texture_layout_change_gets_one_transition() {
    let log = new_log();
    let mut g = RenderGraph::new();
    let t = g.add_resource(texture(3));
    let a = g.add_node(pass("A", &log), vec![(t, ResourceUsage::Write, hint(ImageLayout::ColorAttachment, None))]);
    let b = g.add_node(pass("B", &log), vec![(t, ResourceUsage::Read, hint(ImageLayout::ShaderReadOnly, None))]);
    g.add_edge(a, b);
    let device = FakeDevice { log: log.clone(), fail: false };
    let cmds = g.execute(&device).expect("no cycle");
    assert_eq!(cmds.len(), 3);
    assert_eq!(
        log_of(&log),
        vec!["A sees 1", "barriers[texture 3 ColorAttachment->ShaderReadOnly]", "B sees 1"]
    );
    let steps = g.plan().expect("no cycle");
    assert_eq!(
        steps[1].barriers,
        vec![Barrier::Texture {
            resource: t,
            old_layout: ImageLayout::ColorAttachment,
            new_layout: ImageLayout::ShaderReadOnly
        }]
    );
}

#[test]
fn texture_without_hint_gets_no_barrier() {
    let log = new_log();
    let mut g = RenderGraph::new();
    let t = g.add_resource(texture(3));
    let a = g.add_node(pass("A", &log), vec![(t, ResourceUsage::Write, hint(ImageLayout::ColorAttachment, None))]);
    let b = g.add_node(pass("B", &log), vec![(t, ResourceUsage::Read, None)]);
    g.add_edge(a, b);
    let steps = g.plan().expect("no cycle");
    assert!(steps[1].barriers.is_empty());
}

#[test]
fn unwritten_texture_gets_no_barrier_even_with_a_different_hint() {
    let log = new_log();
    let mut g = RenderGraph::new();
    let t = g.add_resource(texture(3));
    let a = g.add_node(pass("A", &log), vec![(t, ResourceUsage::Read, hint(ImageLayout::TransferSrc, None))]);
    let b = g.add_node(pass("B", &log), vec![(t, ResourceUsage::Read, hint(ImageLayout::ShaderReadOnly, None))]);
    g.add_edge(a, b);
    let steps = g.plan().expect("no cycle");
    assert!(steps[0].barriers.is_empty());
    assert!(steps[1].barriers.is_empty());
}

#[test]
fn hinted_read_records_layout_for_later_transition() {
    let log = new_log();
    let mut g = RenderGraph::new();
    let t = g.add_resource(texture(5));
    let a = g.add_node(pass("A", &log), vec![(t, ResourceUsage::Write, hint(ImageLayout::ColorAttachment, None))]);
    let b = g.add_node(pass("B", &log), vec![(t, ResourceUsage::Read, hint(ImageLayout::ShaderReadOnly, None))]);
    let c = g.add_node(pass("C", &log), vec![(t, ResourceUsage::ReadWrite, hint(ImageLayout::General, None))]);
    g.add_edge(a, b);
    g.add_edge(b, c);
    let steps = g.plan().expect("no cycle");
    assert_eq!(
        steps[2].barriers,
        vec![Barrier::Texture { resource: t, old_layout: ImageLayout::ShaderReadOnly, new_layout: ImageLayout::General }]
    );
}

#[test]
fn buffer_barrier_only_for_passes_that_use_it() {
    let log = new_log();
    let mut g = RenderGraph::new();
    let x = g.add_resource(buffer(1, 16));
    let y = g.add_resource(buffer(2, 16));
    let a = g.add_node(pass("A", &log), vec![(x, ResourceUsage::Write, None)]);
    let b = g.add_node(pass("B", &log), vec![(y, ResourceUsage::Read, None)]);
    let c = g.add_node(pass("C", &log), vec![(x, ResourceUsage::ReadWrite, None), (y, ResourceUsage::Read, None)]);
    g.add_edge(a, b);
    g.add_edge(b, c);
    let steps = g.plan().expect("no cycle");
    assert!(steps[0].barriers.is_empty());
    assert!(steps[1].barriers.is_empty());
    assert_eq!(steps[2].barriers, vec![Barrier::Buffer(x)]);
}

#[test]
fn buffer_barriers_come_before_texture_barriers() {
    let log = new_log();
    let mut g = RenderGraph::new();
    let t = g.add_resource(texture(8));
    let x = g.add_resource(buffer(9, 32));
    let a = g.add_node(
        pass("A", &log),
        vec![(t, ResourceUsage::Write, hint(ImageLayout::General, None)), (x, ResourceUsage::Write, None)],
    );
    let b = g.add_node(
        pass("B", &log),
        vec![(t, ResourceUsage::Read, hint(ImageLayout::ShaderReadOnly, None)), (x, ResourceUsage::Read, None)],
    );
    g.add_edge(a, b);
    let device = FakeDevice { log: log.clone(), fail: false };
    g.execute(&device).expect("no cycle");
    assert_eq!(
        log_of(&log),
        vec!["A sees 2", "barriers[buffer 9 0+32, texture 8 General->ShaderReadOnly]", "B sees 2"]
    );
}

#[test]
fn ready_passes_run_in_registration_order() {
    let log = new_log();
    let mut g = RenderGraph::new();
    let a = g.add_node(pass("A", &log), vec![]);
    let _b = g.add_node(pass("B", &log), vec![]);
    let c = g.add_node(pass("C", &log), vec![]);
    g.add_edge(c, a);
    let steps = g.plan().expect("no cycle");
    let order: Vec<usize> = steps.iter().map(|s| s.node.0).collect();
    assert_eq!(order, vec![1, 2, 0]);
}

fn build_sample_graph(log: &Log) -> RenderGraph {
    let mut g = RenderGraph::new();
    let x = g.add_resource(buffer(1, 8));
    let t = g.add_resource(texture(2));
    let a = g.add_node(pass("A", log), vec![(x, ResourceUsage::Write, None)]);
    let b = g.add_node(
        pass("B", log),
        vec![(x, ResourceUsage::Read, None), (t, ResourceUsage::Write, hint(ImageLayout::ColorAttachment, None))],
    );
    let c = g.add_node(pass("C", log), vec![(t, ResourceUsage::Read, hint(ImageLayout::ShaderReadOnly, None))]);
    g.add_edge(b, c);
    g.add_edge(a, b);
    g
}

#[test]
fn identical_graphs_give_identical_plans() {
    let log = new_log();
    let p1 = build_sample_graph(&log).plan().expect("no cycle");
    let p2 = build_sample_graph(&log).plan().expect("no cycle");
    assert_eq!(p1.len(), p2.len());
    for (s1, s2) in p1.iter().zip(p2.iter()) {
        assert_eq!(s1.node, s2.node);
        assert_eq!(s1.barriers, s2.barriers);
    }
}

#[test]
fn backend_failure_is_propagated() {
    let log = new_log();
    let mut g = RenderGraph::new();
    let x = g.add_resource(buffer(7, 256));
    let a = g.add_node(pass("A", &log), vec![(x, ResourceUsage::Write, None)]);
    let b = g.add_node(pass("B", &log), vec![(x, ResourceUsage::Read, None)]);
    g.add_edge(a, b);
    let device = FakeDevice { log: log.clone(), fail: true };
    match g.execute(&device) {
        Err(GraphError::Backend(msg)) => assert_eq!(msg, "no encoder"),
        _ => panic!("expected a backend error"),
    }
    assert_eq!(log_of(&log), vec!["A sees 1"]);
}

#[test]
fn ids_are_registration_indices() {
    let log = new_log();
    let mut g = RenderGraph::new();
    assert_eq!(g.add_resource(buffer(1, 1)), ResourceId(0));
    assert_eq!(g.add_resource(texture(2)), ResourceId(1));
    assert_eq!(g.add_node(pass("A", &log), vec![]), NodeId(0));
    assert_eq!(g.add_node(pass("B", &log), vec![]), NodeId(1));
}

#[test]
fn out_of_range_edges_are_ignored() {
    let edges = vec![(NodeId(0), NodeId(5)), (NodeId(7), NodeId(1)), (NodeId(1), NodeId(0))];
    let order = topological_order(2, &edges).expect("no cycle");
    assert_eq!(order, vec![1, 0]);
}

#[test]
fn self_loop_is_a_cycle() {
    let edges = vec![(NodeId(1), NodeId(1))];
    assert!(matches!(topological_order(2, &edges), Err(GraphError::Cycle)));
}

#[test]
fn empty_graph_executes_to_nothing() {
    let log = new_log();
    let g = RenderGraph::default();
    let device = FakeDevice { log: log.clone(), fail: false };
    assert_eq!(g.execute(&device).expect("no cycle").len(), 0);
    assert!(topological_order(0, &Vec::new()).expect("no cycle").is_empty());
}

#[test]
fn usage_read_write_flags() {
    assert!(ResourceUsage::Read.is_read());
    assert!(!ResourceUsage::Read.is_write());
    assert!(!ResourceUsage::Write.is_read());
    assert!(ResourceUsage::Write.is_write());
    assert!(ResourceUsage::ReadWrite.is_read());
    assert!(ResourceUsage::ReadWrite.is_write());
}

#[test]
fn handle_kinds() {
    assert_eq!(buffer(1, 1).kind(), ResourceKind::Buffer);
    assert_eq!(texture(1).kind(), ResourceKind::Texture);
    let uses: Vec<UsageDecl> = vec![(ResourceId(0), ResourceUsage::Read, None)];
    assert_eq!(uses.len(), 1);
}

#[test]
fn texture_declared_twice_without_hints_gets_no_barrier() {
    let log = new_log();
    let mut g = RenderGraph::new();
    let t = g.add_resource(texture(4));
    let a = g.add_node(pass("A", &log), vec![(t, ResourceUsage::Write, hint(ImageLayout::ColorAttachment, None))]);
    let b = g.add_node(pass("B", &log), vec![(t, ResourceUsage::Read, None), (t, ResourceUsage::ReadWrite, None)]);
    g.add_edge(a, b);
    let device = FakeDevice { log: log.clone(), fail: false };
    let cmds = g.execute(&device).expect("no cycle");
    assert_eq!(cmds.len(), 2);
    assert_eq!(log_of(&log), vec!["A sees 1", "B sees 1"]);
}

#[test]
fn failed_barrier_recording_stops_before_the_pass() {
    let log = new_log();
    let mut g = RenderGraph::new();
    let t = g.add_resource(texture(4));
    let a = g.add_node(pass("A", &log), vec![(t, ResourceUsage::Write, hint(ImageLayout::ColorAttachment, None))]);
    let b = g.add_node(pass("B", &log), vec![(t, ResourceUsage::Read, hint(ImageLayout::ShaderReadOnly, None))]);
    let c = g.add_node(pass("C", &log), vec![]);
    g.add_edge(a, b);
    g.add_edge(b, c);
    let device = FakeDevice { log: log.clone(), fail: true };
    assert!(matches!(g.execute(&device), Err(GraphError::Backend(_))));
    assert_eq!(log_of(&log), vec!["A sees 1"]);
}
