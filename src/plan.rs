//! Compilation of a declared graph into an execution plan.
use crate::aliasing::{allocate, allocation, lemma_aliasing_sound, lifetimes_ordered, PhysicalResource};
use crate::barrier::{
    accesses_through, barrier_for, exit_barriers, flatten_accesses, initial_state, initial_states,
    state_before, step_accesses, synthesize_barriers, synthesize_exit_barriers, Barrier,
    PlannedAccess,
};
use crate::graph::{
    output_usage_pair, outputs_usages, ExternalOutput, GraphError, NodeDecl, NodeId, NodeUsage,
    RenderGraphBuilder, ResourceId, ResourceState,
};
use crate::lifetime::{overlaps, is_lifetime, lifetimes, order_in_range, step_usages, step_uses, Interval};
use crate::schedule::{lemma_schedule_deterministic, lemma_schedule_is_topological, schedule, schedule_order};
use vstd::prelude::*;

verus! {

/// The compiled plan of one frame.
pub struct ExecutionPlan {
    /// The nodes in execution order; step `p` runs `order[p]`, the last step does the
    /// output copies.
    pub order: Vec<NodeId>,
    /// Per logical resource, the steps during which it is in use.
    pub lifetimes: Vec<Option<Interval>>,
    /// The physical resources.
    pub physical: Vec<PhysicalResource>,
    /// Per logical resource, its physical resource; `None` for a transient nobody uses.
    pub assignment: Vec<Option<usize>>,
    /// The state each physical resource is in when the frame starts.
    pub initial_states: Vec<ResourceState>,
    /// Every access of the plan, in order.
    pub accesses: Vec<PlannedAccess>,
    /// The barrier to record before each access, if any.
    pub barriers: Vec<Option<Barrier>>,
    /// The barriers that return external resources to their exit states at the end.
    pub exit_barriers: Vec<Barrier>,
    /// The copies into external images, done at the last step.
    pub outputs: Vec<ExternalOutput>,
}

/// The number of steps of a plan with `n_nodes` nodes: one per node and the output step.
pub open spec fn n_steps(n_nodes: nat) -> nat {
    n_nodes + 1
}

/// `plan` is the compilation of the declarations of `g`.
pub open spec fn compiles_to(g: RenderGraphBuilder, plan: ExecutionPlan) -> bool {
    let order = plan.order@;
    let ivs = plan.lifetimes@;
    let alloc = allocation(g.resources@, ivs, n_steps(order.len()));
    let acc = plan.accesses@;
    let init = plan.initial_states@;
    &&& order == schedule_order(g.nodes@)
    &&& order.len() == g.nodes@.len()
    &&& ivs.len() == g.resources@.len()
    &&& forall|r: int|
        0 <= r < ivs.len() ==> is_lifetime(g.nodes@, g.output_usages@, order, r as ResourceId, #[trigger] ivs[r])
    &&& plan.physical@ == alloc.slots
    &&& plan.assignment@ == alloc.assignment
    &&& init.len() == plan.physical@.len()
    &&& forall|s: int|
        0 <= s < init.len() ==> #[trigger] init[s] == initial_state(g.resources@, plan.physical@[s])
    &&& acc == accesses_through(g.nodes@, g.output_usages@, order, plan.assignment@, n_steps(order.len()))
    &&& plan.barriers@.len() == acc.len()
    &&& forall|i: int| 0 <= i < acc.len() ==> #[trigger] plan.barriers@[i] == barrier_for(init, acc, i)
    &&& plan.exit_barriers@ == exit_barriers(
        g.resources@,
        plan.physical@,
        Seq::new(init.len(), |s: int| state_before(init, acc, acc.len() as int, s)),
        init.len(),
    )
    &&& plan.outputs@ == g.outputs@
}

proof fn lemma_outputs_usages_in_range(os: Seq<ExternalOutput>, n: nat)
    requires
        forall|i: int| 0 <= i < os.len() ==> (#[trigger] os[i]).source < n && os[i].external < n,
    ensures
        forall|k: int| 0 <= k < outputs_usages(os).len() ==> (#[trigger] outputs_usages(os)[k]).resource < n,
    decreases os.len(),
{
    if os.len() > 0 {
        lemma_outputs_usages_in_range(os.drop_last(), n);
        let prev = outputs_usages(os.drop_last());
        let pair = output_usage_pair(os.last());
        assert forall|k: int| 0 <= k < outputs_usages(os).len() implies (#[trigger] outputs_usages(os)[k]).resource < n by {
            if k < prev.len() {
                assert(outputs_usages(os)[k] == prev[k]);
            } else {
                assert(outputs_usages(os)[k] == pair[k - prev.len()]);
            }
        }
    }
}

proof fn lemma_accesses_physical(
    nodes: Seq<NodeDecl>,
    outputs: Seq<NodeUsage>,
    order: Seq<NodeId>,
    assignment: Seq<Option<usize>>,
    p: nat,
    n_slots: nat,
)
    requires
        p <= order.len() + 1,
        forall|q: int, k: int|
            0 <= q <= order.len() && 0 <= k < step_usages(nodes, outputs, order, q).len() ==> (
            #[trigger] step_usages(nodes, outputs, order, q)[k]).resource < assignment.len()
                && assignment[step_usages(nodes, outputs, order, q)[k].resource as int] is Some
                && assignment[step_usages(nodes, outputs, order, q)[k].resource as int]->0 < n_slots,
    ensures
        forall|i: int|
            0 <= i < accesses_through(nodes, outputs, order, assignment, p).len() ==> (
            #[trigger] accesses_through(nodes, outputs, order, assignment, p)[i]).physical < n_slots,
    decreases p,
{
    if p > 0 {
        lemma_accesses_physical(nodes, outputs, order, assignment, (p - 1) as nat, n_slots);
        let prev = accesses_through(nodes, outputs, order, assignment, (p - 1) as nat);
        let step = step_accesses(nodes, outputs, order, assignment, p - 1);
        let all = accesses_through(nodes, outputs, order, assignment, p);
        assert forall|i: int| 0 <= i < all.len() implies (#[trigger] all[i]).physical < n_slots by {
            if i < prev.len() {
                assert(all[i] == prev[i]);
            } else {
                let k = i - prev.len();
                assert(all[i] == step[k]);
                assert(step_usages(nodes, outputs, order, p - 1)[k].resource < assignment.len());
            }
        }
    }
}

/// Compiles the declarations: schedules the nodes, computes lifetimes, maps resources to
/// physical resources and synthesizes the barriers. Fails with `CyclicDependency` exactly
/// when the derived dependencies have a cycle.
pub fn compile(g: &RenderGraphBuilder) -> (r: Result<ExecutionPlan, GraphError>)
    requires
        g.wf(),
        g.nodes@.len() < usize::MAX,
    ensures
        match r {
            Ok(plan) => compiles_to(*g, plan) && forall|i: int|
                0 <= i < plan.accesses@.len() ==> (#[trigger] plan.accesses@[i]).physical
                    < plan.physical@.len(),
            Err(e) => e == GraphError::CyclicDependency && schedule_order(g.nodes@).len()
                < g.nodes@.len(),
        },
{
    let order = match schedule(&g.nodes) {
        Ok(order) => order,
        Err(e) => return Err(e),
    };
    proof {
        lemma_schedule_is_topological(g.nodes@);
        assert(order_in_range(g.nodes@, order@));
    }
    let n_steps = order.len() + 1;
    let ivs = lifetimes(&g.nodes, &g.output_usages, &order, g.resources.len());
    let ghost nodes = g.nodes@;
    let ghost outs = g.output_usages@;
    let ghost n_res = g.resources@.len();
    proof {
        assert(lifetimes_ordered(ivs@));
        assert forall|x: int| 0 <= x < ivs@.len() && (#[trigger] ivs@[x]) is Some implies ivs@[x]->0.first < n_steps by {
            assert(is_lifetime(nodes, outs, order@, x as ResourceId, ivs@[x]));
        }
        lemma_aliasing_sound(g.resources@, ivs@, n_steps as nat);
        lemma_outputs_usages_in_range(g.outputs@, n_res);
    }
    let (physical, assignment) = allocate(&g.resources, &ivs, n_steps);
    proof {
        assert forall|q: int, k: int|
            0 <= q <= order@.len() && 0 <= k < step_usages(nodes, outs, order@, q).len() implies (
            #[trigger] step_usages(nodes, outs, order@, q)[k]).resource < assignment@.len()
                && assignment@[step_usages(nodes, outs, order@, q)[k].resource as int] is Some
                && assignment@[step_usages(nodes, outs, order@, q)[k].resource as int]->0 < physical@.len() by {
            let r = step_usages(nodes, outs, order@, q)[k].resource;
            if q < order@.len() {
                assert(nodes[order@[q] as int].usages@[k] == step_usages(nodes, outs, order@, q)[k]);
            }
            assert(r < n_res);
            assert(step_uses(nodes, outs, order@, q, r));
            assert(is_lifetime(nodes, outs, order@, r, ivs@[r as int]));
        }
        lemma_accesses_physical(nodes, outs, order@, assignment@, n_steps as nat, physical@.len());
    }
    let accesses = flatten_accesses(&g.nodes, &g.output_usages, &order, &assignment);
    let init = initial_states(&g.resources, &physical);
    let (barriers, last) = synthesize_barriers(&init, &accesses);
    let exits = synthesize_exit_barriers(&g.resources, &physical, &last);
    proof {
        assert(last@ =~= Seq::new(init@.len(), |s: int| state_before(init@, accesses@, accesses@.len() as int, s)));
    }
    let outputs = g.outputs.clone();
    Ok(ExecutionPlan {
        order,
        lifetimes: ivs,
        physical,
        assignment,
        initial_states: init,
        accesses,
        barriers,
        exit_barriers: exits,
        outputs,
    })
}

/// Two lifetimes of the same resource over the same uses are equal.
proof fn lemma_lifetime_unique(
    n1: Seq<NodeDecl>,
    n2: Seq<NodeDecl>,
    outputs: Seq<NodeUsage>,
    order: Seq<NodeId>,
    r: ResourceId,
    a: Option<Interval>,
    b: Option<Interval>,
)
    requires
        forall|p: int| #[trigger] step_uses(n1, outputs, order, p, r) == step_uses(n2, outputs, order, p, r),
        is_lifetime(n1, outputs, order, r, a),
        is_lifetime(n2, outputs, order, r, b),
    ensures
        a == b,
{
    match (a, b) {
        (Some(x), Some(y)) => {
            assert(step_uses(n1, outputs, order, y.first as int, r));
            assert(step_uses(n1, outputs, order, y.last as int, r));
            assert(step_uses(n2, outputs, order, x.first as int, r));
            assert(step_uses(n2, outputs, order, x.last as int, r));
        },
        (Some(x), None) => {
            assert(step_uses(n2, outputs, order, x.first as int, r));
        },
        (None, Some(y)) => {
            assert(step_uses(n1, outputs, order, y.first as int, r));
        },
        (None, None) => {},
    }
}

/// Compiling the same declarations twice gives the same scheduled order, the same
/// lifetimes, and the same aliasing assignment onto the same physical resources.
pub proof fn lemma_compile_deterministic(
    g1: RenderGraphBuilder,
    g2: RenderGraphBuilder,
    plan1: ExecutionPlan,
    plan2: ExecutionPlan,
)
    requires
        g1.wf(),
        g2.wf(),
        g1.nodes@.len() <= usize::MAX,
        g1.resources@ == g2.resources@,
        g1.nodes@.len() == g2.nodes@.len(),
        forall|a: int| 0 <= a < g1.nodes@.len() ==> (#[trigger] g1.nodes@[a]).usages@ == g2.nodes@[a].usages@,
        g1.outputs@ == g2.outputs@,
        compiles_to(g1, plan1),
        compiles_to(g2, plan2),
    ensures
        plan1.order@ == plan2.order@,
        plan1.lifetimes@ == plan2.lifetimes@,
        plan1.physical@ == plan2.physical@,
        plan1.assignment@ == plan2.assignment@,
{
    lemma_schedule_deterministic(g1.nodes@, g2.nodes@);
    let order = plan1.order@;
    let outs = g1.output_usages@;
    if order.len() == g1.nodes@.len() {
        lemma_schedule_is_topological(g1.nodes@);
    }
    assert forall|r: int| 0 <= r < plan1.lifetimes@.len() implies plan1.lifetimes@[r] == plan2.lifetimes@[r] by {
        assert forall|p: int| #[trigger] step_uses(g1.nodes@, outs, order, p, r as ResourceId)
            == step_uses(g2.nodes@, outs, order, p, r as ResourceId) by {
            if 0 <= p < order.len() {
                assert(g1.nodes@[order[p] as int].usages@ == g2.nodes@[order[p] as int].usages@);
            }
        }
        assert(is_lifetime(g1.nodes@, outs, order, r as ResourceId, plan1.lifetimes@[r]));
        assert(is_lifetime(g2.nodes@, outs, order, r as ResourceId, plan2.lifetimes@[r]));
        lemma_lifetime_unique(g1.nodes@, g2.nodes@, outs, order, r as ResourceId, plan1.lifetimes@[r], plan2.lifetimes@[r]);
    }
    assert(plan1.lifetimes@ =~= plan2.lifetimes@);
}

/// In a compiled plan, two logical resources that share a physical resource are both
/// transient and have lifetimes that do not overlap.
pub proof fn lemma_plan_aliasing_disjoint(g: RenderGraphBuilder, plan: ExecutionPlan)
    requires
        g.wf(),
        g.resources@.len() <= usize::MAX,
        compiles_to(g, plan),
    ensures
        forall|x: int, y: int|
            0 <= x < g.resources@.len() && 0 <= y < g.resources@.len() && x != y
                && (#[trigger] plan.assignment@[x]) is Some && plan.assignment@[x] == (#[trigger] plan.assignment@[y])
                ==> g.resources@[x].external is None && g.resources@[y].external is None
                    && !overlaps(plan.lifetimes@[x]->0, plan.lifetimes@[y]->0),
{
    let ivs = plan.lifetimes@;
    let order = plan.order@;
    assert(lifetimes_ordered(ivs)) by {
        assert forall|x: int| 0 <= x < ivs.len() && (#[trigger] ivs[x]) is Some implies ivs[x]->0.first <= ivs[x]->0.last by {
            assert(is_lifetime(g.nodes@, g.output_usages@, order, x as ResourceId, ivs[x]));
        }
    }
    assert forall|x: int| 0 <= x < ivs.len() && (#[trigger] ivs[x]) is Some implies ivs[x]->0.first < n_steps(order.len()) by {
        assert(is_lifetime(g.nodes@, g.output_usages@, order, x as ResourceId, ivs[x]));
    }
    lemma_aliasing_sound(g.resources@, ivs, n_steps(order.len()));
}

} // verus!
