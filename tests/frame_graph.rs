use rafx_graph::executor::{Command, ExecutionError, ExecutionStatus, FrameExecutor};
use rafx_graph::graph::{
    GraphError, ImageDesc, RenderGraphBuilder, ResourceState, ResourceUsage, USAGE_COPY_DST,
    USAGE_COPY_SRC, USAGE_PRESENT, USAGE_RENDER_TARGET, USAGE_SAMPLED, USAGE_STORAGE,
};
use rafx_graph::barrier::Barrier;
use rafx_graph::lifetime::Interval;
use rafx_graph::plan::compile;

fn color_desc() -> ImageDesc {
    ImageDesc { format: 37, width: 1920, height: 1080, depth: 1, samples: 1, mip_count: 1, layer_count: 1 }
}

fn usage(resource: usize, state: ResourceState) -> ResourceUsage {
    ResourceUsage { resource, state }
}

#[test]
fn swapchain_scenario_plan() {
    let mut g = RenderGraphBuilder::new();
    let swapchain = g
        .add_external_image(
            7,
            color_desc(),
            USAGE_PRESENT | USAGE_COPY_DST,
            ResourceState::Present,
            ResourceState::Present,
        )
        .unwrap();
    let color = g.create_image(color_desc(), USAGE_RENDER_TARGET | USAGE_COPY_SRC);
    let x = g
        .add_node("x".to_string(), vec![], vec![usage(color, ResourceState::RenderTarget)])
        .unwrap();
    g.write_external_image(swapchain, color).unwrap();
    let plan = compile(&g).unwrap();

    assert_eq!(plan.order, vec![x]);
    // one physical resource for the swapchain, one for the transient color image
    assert_eq!(plan.physical.len(), 2);
    assert_eq!(plan.assignment, vec![Some(0), Some(1)]);
    assert_eq!(plan.lifetimes[color], Some(Interval { first: 0, last: 1 }));
    assert_eq!(plan.lifetimes[swapchain], Some(Interval { first: 1, last: 1 }));
    assert_eq!(plan.accesses.len(), 3);
    assert_eq!(
        plan.barriers,
        vec![
            Some(Barrier { physical: 1, from: ResourceState::Undefined, to: ResourceState::RenderTarget }),
            Some(Barrier { physical: 1, from: ResourceState::RenderTarget, to: ResourceState::CopySrc }),
            Some(Barrier { physical: 0, from: ResourceState::Present, to: ResourceState::CopyDst }),
        ]
    );
    assert_eq!(
        plan.exit_barriers,
        vec![Barrier { physical: 0, from: ResourceState::CopyDst, to: ResourceState::Present }]
    );

    let exec = FrameExecutor::new(&plan);
    assert_eq!(exec.buffers.len(), 2);
    assert_eq!(
        exec.buffers[0].commands,
        vec![
            Command::Realize(1),
            Command::Transition(Barrier { physical: 1, from: ResourceState::Undefined, to: ResourceState::RenderTarget }),
            Command::RunNode(x),
        ]
    );
    let last = &exec.buffers[1].commands;
    assert_eq!(last[0], Command::Realize(0));
    assert_eq!(
        last[last.len() - 1],
        Command::Transition(Barrier { physical: 0, from: ResourceState::CopyDst, to: ResourceState::Present })
    );
}

#[test]
fn two_writers_without_read_are_rejected() {
    let mut g = RenderGraphBuilder::new();
    let r = g.create_image(color_desc(), USAGE_RENDER_TARGET);
    g.add_node("a".to_string(), vec![], vec![usage(r, ResourceState::RenderTarget)]).unwrap();
    let second = g.add_node("b".to_string(), vec![], vec![usage(r, ResourceState::RenderTarget)]);
    assert_eq!(second, Err(GraphError::AmbiguousWriteOrder));
    assert_eq!(g.nodes.len(), 1);
}

#[test]
fn write_after_read_is_accepted_at_build_time() {
    let mut g = RenderGraphBuilder::new();
    let r = g.create_image(color_desc(), USAGE_RENDER_TARGET | USAGE_SAMPLED);
    g.add_node("a".to_string(), vec![], vec![usage(r, ResourceState::RenderTarget)]).unwrap();
    g.add_node("b".to_string(), vec![usage(r, ResourceState::ShaderResource)], vec![]).unwrap();
    assert_eq!(g.add_node("c".to_string(), vec![], vec![usage(r, ResourceState::RenderTarget)]), Ok(2));
}

#[test]
fn read_write_node_may_follow_a_write() {
    let mut g = RenderGraphBuilder::new();
    let r = g.create_buffer(256, USAGE_STORAGE);
    g.add_node("a".to_string(), vec![], vec![usage(r, ResourceState::UnorderedAccess)]).unwrap();
    let b = g.add_node(
        "b".to_string(),
        vec![usage(r, ResourceState::UnorderedAccess)],
        vec![usage(r, ResourceState::UnorderedAccess)],
    );
    assert_eq!(b, Ok(1));
}

#[test]
fn disjoint_lifetimes_share_a_slot() {
    let mut g = RenderGraphBuilder::new();
    let r = g.create_image(color_desc(), USAGE_RENDER_TARGET | USAGE_SAMPLED);
    let s = g.create_image(color_desc(), USAGE_RENDER_TARGET | USAGE_SAMPLED);
    g.add_node("a".to_string(), vec![], vec![usage(r, ResourceState::RenderTarget)]).unwrap();
    g.add_node("b".to_string(), vec![usage(r, ResourceState::ShaderResource)], vec![]).unwrap();
    g.add_node("c".to_string(), vec![], vec![usage(s, ResourceState::RenderTarget)]).unwrap();
    let plan = compile(&g).unwrap();
    assert_eq!(plan.order, vec![0, 1, 2]);
    assert_eq!(plan.lifetimes[r], Some(Interval { first: 0, last: 1 }));
    assert_eq!(plan.lifetimes[s], Some(Interval { first: 2, last: 2 }));
    assert_eq!(plan.assignment[r], Some(0));
    assert_eq!(plan.assignment[s], Some(0));
    assert_eq!(plan.physical.len(), 1);
}

#[test]
fn overlapping_lifetimes_get_separate_slots() {
    let mut g = RenderGraphBuilder::new();
    let r = g.create_image(color_desc(), USAGE_RENDER_TARGET | USAGE_SAMPLED);
    let s = g.create_image(color_desc(), USAGE_RENDER_TARGET | USAGE_SAMPLED);
    g.add_node("a".to_string(), vec![], vec![usage(r, ResourceState::RenderTarget)]).unwrap();
    g.add_node("c".to_string(), vec![], vec![usage(s, ResourceState::RenderTarget)]).unwrap();
    g.add_node("b".to_string(), vec![usage(r, ResourceState::ShaderResource)], vec![]).unwrap();
    let plan = compile(&g).unwrap();
    assert_eq!(plan.order, vec![0, 1, 2]);
    assert_eq!(plan.lifetimes[r], Some(Interval { first: 0, last: 2 }));
    assert_eq!(plan.lifetimes[s], Some(Interval { first: 1, last: 1 }));
    assert_ne!(plan.assignment[r], plan.assignment[s]);
    assert_eq!(plan.physical.len(), 2);
}

#[test]
fn incompatible_shapes_are_not_aliased() {
    let mut g = RenderGraphBuilder::new();
    let r = g.create_image(color_desc(), USAGE_RENDER_TARGET | USAGE_SAMPLED);
    let s = g.create_buffer(64, USAGE_STORAGE);
    g.add_node("a".to_string(), vec![], vec![usage(r, ResourceState::RenderTarget)]).unwrap();
    g.add_node("b".to_string(), vec![usage(r, ResourceState::ShaderResource)], vec![]).unwrap();
    g.add_node("c".to_string(), vec![], vec![usage(s, ResourceState::UnorderedAccess)]).unwrap();
    let plan = compile(&g).unwrap();
    assert_eq!(plan.assignment, vec![Some(0), Some(1)]);
}

#[test]
fn slot_without_needed_usage_is_not_reused() {
    let mut g = RenderGraphBuilder::new();
    let r = g.create_image(color_desc(), USAGE_RENDER_TARGET);
    let s = g.create_image(color_desc(), USAGE_RENDER_TARGET | USAGE_SAMPLED);
    g.add_node("a".to_string(), vec![], vec![usage(r, ResourceState::RenderTarget)]).unwrap();
    g.add_node("c".to_string(), vec![], vec![usage(s, ResourceState::RenderTarget)]).unwrap();
    let plan = compile(&g).unwrap();
    assert_eq!(plan.assignment, vec![Some(0), Some(1)]);
}

#[test]
fn scheduler_puts_writer_before_reader() {
    let mut g = RenderGraphBuilder::new();
    let r = g.create_image(color_desc(), USAGE_RENDER_TARGET | USAGE_SAMPLED);
    // declared first, but it reads what the second node writes
    g.add_node("reader".to_string(), vec![usage(r, ResourceState::ShaderResource)], vec![]).unwrap();
    g.add_node("writer".to_string(), vec![], vec![usage(r, ResourceState::RenderTarget)]).unwrap();
    let plan = compile(&g).unwrap();
    assert_eq!(plan.order, vec![1, 0]);
}

#[test]
fn independent_nodes_keep_declaration_order() {
    let mut g = RenderGraphBuilder::new();
    let a = g.create_buffer(16, USAGE_STORAGE);
    let b = g.create_buffer(16, USAGE_STORAGE);
    let c = g.create_buffer(16, USAGE_STORAGE);
    g.add_node("n0".to_string(), vec![], vec![usage(c, ResourceState::UnorderedAccess)]).unwrap();
    g.add_node("n1".to_string(), vec![usage(a, ResourceState::UnorderedAccess)], vec![]).unwrap();
    g.add_node("n2".to_string(), vec![], vec![usage(a, ResourceState::UnorderedAccess)]).unwrap();
    g.add_node("n3".to_string(), vec![usage(b, ResourceState::UnorderedAccess)], vec![]).unwrap();
    let plan = compile(&g).unwrap();
    // n2 writes what n1 reads, so n1 waits for n2; n0 and n3 are independent
    assert_eq!(plan.order, vec![0, 2, 1, 3]);
}

#[test]
fn mutual_dependency_is_a_cycle() {
    let mut g = RenderGraphBuilder::new();
    let x = g.create_buffer(16, USAGE_STORAGE);
    let y = g.create_buffer(16, USAGE_STORAGE);
    g.add_node(
        "a".to_string(),
        vec![usage(x, ResourceState::UnorderedAccess)],
        vec![usage(y, ResourceState::UnorderedAccess)],
    )
    .unwrap();
    g.add_node(
        "b".to_string(),
        vec![usage(y, ResourceState::UnorderedAccess)],
        vec![usage(x, ResourceState::UnorderedAccess)],
    )
    .unwrap();
    assert_eq!(compile(&g).err(), Some(GraphError::CyclicDependency));
}

#[test]
fn same_declarations_compile_identically() {
    fn build() -> RenderGraphBuilder {
        let mut g = RenderGraphBuilder::new();
        let r = g.create_image(color_desc(), USAGE_RENDER_TARGET | USAGE_SAMPLED);
        let s = g.create_image(color_desc(), USAGE_RENDER_TARGET | USAGE_SAMPLED);
        let t = g.create_buffer(32, USAGE_STORAGE);
        g.add_node("a".to_string(), vec![], vec![usage(r, ResourceState::RenderTarget)]).unwrap();
        g.add_node("b".to_string(), vec![usage(r, ResourceState::ShaderResource)], vec![usage(t, ResourceState::UnorderedAccess)]).unwrap();
        g.add_node("c".to_string(), vec![usage(t, ResourceState::UnorderedAccess)], vec![usage(s, ResourceState::RenderTarget)]).unwrap();
        g
    }
    let p1 = compile(&build()).unwrap();
    let p2 = compile(&build()).unwrap();
    assert_eq!(p1.order, p2.order);
    assert_eq!(p1.assignment, p2.assignment);
    assert_eq!(p1.physical, p2.physical);
    assert_eq!(p1.barriers, p2.barriers);
}

#[test]
fn slots_never_hold_overlapping_lifetimes() {
    let mut g = RenderGraphBuilder::new();
    let mut ids = Vec::new();
    for _ in 0..4 {
        ids.push(g.create_image(color_desc(), USAGE_RENDER_TARGET | USAGE_SAMPLED));
    }
    for i in 0..4 {
        g.add_node(format!("w{}", i), vec![], vec![usage(ids[i], ResourceState::RenderTarget)]).unwrap();
        if i % 2 == 0 {
            g.add_node(format!("r{}", i), vec![usage(ids[i], ResourceState::ShaderResource)], vec![]).unwrap();
        }
    }
    let plan = compile(&g).unwrap();
    for a in 0..4 {
        for b in 0..4 {
            if a != b && plan.assignment[a].is_some() && plan.assignment[a] == plan.assignment[b] {
                let (x, y) = (plan.lifetimes[a].unwrap(), plan.lifetimes[b].unwrap());
                assert!(x.last < y.first || y.last < x.first);
            }
        }
    }
    assert!(plan.physical.len() < 4);
}

#[test]
fn second_writer_of_a_resource_forms_a_cycle() {
    let mut g = RenderGraphBuilder::new();
    let r = g.create_image(color_desc(), USAGE_RENDER_TARGET | USAGE_SAMPLED);
    g.add_node("a".to_string(), vec![], vec![usage(r, ResourceState::RenderTarget)]).unwrap();
    g.add_node("b".to_string(), vec![usage(r, ResourceState::ShaderResource)], vec![]).unwrap();
    g.add_node("d".to_string(), vec![], vec![usage(r, ResourceState::RenderTarget)]).unwrap();
    // a writes what d writes and d writes what a writes
    assert_eq!(compile(&g).err(), Some(GraphError::CyclicDependency));
}

#[test]
fn barriers_follow_previous_state() {
    let mut g = RenderGraphBuilder::new();
    let r = g.create_image(color_desc(), USAGE_RENDER_TARGET | USAGE_SAMPLED);
    g.add_node("a".to_string(), vec![], vec![usage(r, ResourceState::RenderTarget)]).unwrap();
    g.add_node("b".to_string(), vec![usage(r, ResourceState::ShaderResource)], vec![]).unwrap();
    g.add_node("c".to_string(), vec![usage(r, ResourceState::ShaderResource)], vec![]).unwrap();
    let plan = compile(&g).unwrap();
    assert_eq!(
        plan.barriers,
        vec![
            Some(Barrier { physical: 0, from: ResourceState::Undefined, to: ResourceState::RenderTarget }),
            Some(Barrier { physical: 0, from: ResourceState::RenderTarget, to: ResourceState::ShaderResource }),
            None,
        ]
    );
}

#[test]
fn write_in_same_state_still_gets_a_barrier() {
    let mut g = RenderGraphBuilder::new();
    let r = g.create_buffer(64, USAGE_STORAGE);
    g.add_node(
        "a".to_string(),
        vec![usage(r, ResourceState::UnorderedAccess)],
        vec![usage(r, ResourceState::UnorderedAccess)],
    )
    .unwrap();
    let plan = compile(&g).unwrap();
    let uav = ResourceState::UnorderedAccess;
    assert_eq!(
        plan.barriers,
        vec![
            Some(Barrier { physical: 0, from: ResourceState::Undefined, to: uav }),
            Some(Barrier { physical: 0, from: uav, to: uav }),
        ]
    );
}

#[test]
fn external_buffer_with_same_exit_state_needs_no_exit_barrier() {
    let mut g = RenderGraphBuilder::new();
    let b = g
        .add_external_buffer(3, 1024, USAGE_STORAGE, ResourceState::UnorderedAccess, ResourceState::UnorderedAccess)
        .unwrap();
    g.add_node("a".to_string(), vec![usage(b, ResourceState::UnorderedAccess)], vec![]).unwrap();
    let plan = compile(&g).unwrap();
    assert_eq!(plan.barriers, vec![None]);
    assert!(plan.exit_barriers.is_empty());
}

#[test]
fn unused_external_still_returns_to_exit_state() {
    let mut g = RenderGraphBuilder::new();
    let e = g
        .add_external_image(1, color_desc(), USAGE_PRESENT | USAGE_SAMPLED, ResourceState::ShaderResource, ResourceState::Present)
        .unwrap();
    let plan = compile(&g).unwrap();
    assert_eq!(plan.assignment[e], Some(0));
    assert_eq!(plan.lifetimes[e], None);
    assert_eq!(
        plan.exit_barriers,
        vec![Barrier { physical: 0, from: ResourceState::ShaderResource, to: ResourceState::Present }]
    );
    let exec = FrameExecutor::new(&plan);
    assert_eq!(exec.buffers.len(), 1);
}

#[test]
fn unused_transient_gets_no_slot() {
    let mut g = RenderGraphBuilder::new();
    let r = g.create_image(color_desc(), USAGE_RENDER_TARGET);
    let plan = compile(&g).unwrap();
    assert_eq!(plan.assignment[r], None);
    assert!(plan.physical.is_empty());
}

#[test]
fn empty_graph_gives_empty_plan() {
    let g = RenderGraphBuilder::new();
    let plan = compile(&g).unwrap();
    assert!(plan.order.is_empty());
    assert!(plan.physical.is_empty());
    assert!(plan.accesses.is_empty());
    assert!(plan.barriers.is_empty());
    assert!(plan.exit_barriers.is_empty());
    let exec = FrameExecutor::new(&plan);
    assert_eq!(exec.status, ExecutionStatus::Complete);
    assert!(exec.current().is_none());
    assert_eq!(exec.finish().unwrap().len(), 0);
}

#[test]
fn unknown_resource_is_rejected() {
    let mut g = RenderGraphBuilder::new();
    let r = g.create_image(color_desc(), USAGE_RENDER_TARGET);
    let res = g.add_node("a".to_string(), vec![usage(r + 1, ResourceState::ShaderResource)], vec![]);
    assert_eq!(res, Err(GraphError::UnknownResource));
    assert_eq!(g.write_external_image(r, 5), Err(GraphError::UnknownResource));
}

#[test]
fn output_into_transient_is_rejected() {
    let mut g = RenderGraphBuilder::new();
    let r = g.create_image(color_desc(), USAGE_RENDER_TARGET);
    let s = g.create_image(color_desc(), USAGE_RENDER_TARGET);
    assert_eq!(g.write_external_image(r, s), Err(GraphError::NotExternal));
}

#[test]
fn second_output_into_same_external_is_ambiguous() {
    let mut g = RenderGraphBuilder::new();
    let e = g
        .add_external_image(1, color_desc(), USAGE_PRESENT | USAGE_COPY_DST, ResourceState::Present, ResourceState::Present)
        .unwrap();
    let a = g.create_image(color_desc(), USAGE_COPY_SRC);
    let b = g.create_image(color_desc(), USAGE_COPY_SRC);
    assert_eq!(g.write_external_image(e, a), Ok(()));
    assert_eq!(g.write_external_image(e, b), Err(GraphError::AmbiguousWriteOrder));
    assert_eq!(g.outputs.len(), 1);
}

#[test]
fn external_state_needs_capability() {
    let mut g = RenderGraphBuilder::new();
    let res = g.add_external_image(1, color_desc(), USAGE_SAMPLED, ResourceState::Present, ResourceState::Present);
    assert_eq!(res, Err(GraphError::IncompatibleExternalState));
    assert!(g.resources.is_empty());
    let res = g.add_external_buffer(1, 8, USAGE_STORAGE, ResourceState::UnorderedAccess, ResourceState::CopySrc);
    assert_eq!(res, Err(GraphError::IncompatibleExternalState));
    assert_eq!(
        g.add_external_buffer(1, 8, USAGE_STORAGE, ResourceState::Undefined, ResourceState::UnorderedAccess),
        Ok(0)
    );
}

#[test]
fn executor_walks_buffers_in_order() {
    let mut g = RenderGraphBuilder::new();
    let r = g.create_image(color_desc(), USAGE_RENDER_TARGET | USAGE_SAMPLED);
    g.add_node("a".to_string(), vec![], vec![usage(r, ResourceState::RenderTarget)]).unwrap();
    g.add_node("b".to_string(), vec![usage(r, ResourceState::ShaderResource)], vec![]).unwrap();
    let plan = compile(&g).unwrap();
    let mut exec = FrameExecutor::new(&plan);
    assert_eq!(exec.buffers.len(), 2);
    assert_eq!(exec.current().unwrap().step, 0);
    exec.report(Ok(()));
    assert_eq!(exec.current().unwrap().step, 1);
    exec.report(Ok(()));
    assert_eq!(exec.status, ExecutionStatus::Complete);
    let buffers = exec.finish().unwrap();
    assert_eq!(buffers.len(), 2);
    assert_eq!(buffers[1].commands[buffers[1].commands.len() - 1], Command::RunNode(1));
}

#[test]
fn executor_failure_aborts_frame() {
    let mut g = RenderGraphBuilder::new();
    let r = g.create_image(color_desc(), USAGE_RENDER_TARGET | USAGE_SAMPLED);
    g.add_node("a".to_string(), vec![], vec![usage(r, ResourceState::RenderTarget)]).unwrap();
    g.add_node("b".to_string(), vec![usage(r, ResourceState::ShaderResource)], vec![]).unwrap();
    let plan = compile(&g).unwrap();
    let mut exec = FrameExecutor::new(&plan);
    exec.report(Err(ExecutionError::NodeExecution));
    assert_eq!(exec.status, ExecutionStatus::Failed(ExecutionError::NodeExecution));
    assert!(exec.current().is_none());
    exec.report(Ok(()));
    assert_eq!(exec.next, 0);
    assert_eq!(exec.finish().err(), Some(ExecutionError::NodeExecution));
}

#[test]
fn executor_finished_early_is_incomplete() {
    let mut g = RenderGraphBuilder::new();
    let r = g.create_image(color_desc(), USAGE_RENDER_TARGET);
    g.add_node("a".to_string(), vec![], vec![usage(r, ResourceState::RenderTarget)]).unwrap();
    let plan = compile(&g).unwrap();
    let exec = FrameExecutor::new(&plan);
    assert_eq!(exec.finish().err(), Some(ExecutionError::Incomplete));
}

#[test]
fn allocation_error_propagates() {
    let mut g = RenderGraphBuilder::new();
    let r = g.create_image(color_desc(), USAGE_RENDER_TARGET);
    g.add_node("a".to_string(), vec![], vec![usage(r, ResourceState::RenderTarget)]).unwrap();
    let plan = compile(&g).unwrap();
    let mut exec = FrameExecutor::new(&plan);
    exec.report(Err(ExecutionError::ResourceAllocation));
    assert_eq!(exec.finish().err(), Some(ExecutionError::ResourceAllocation));
}
