//! The barrier synthesizer: tracks the last state of each physical resource along the
//! plan's accesses and emits the transitions each access needs.
use crate::aliasing::PhysicalResource;
use crate::graph::{AccessKind, NodeDecl, NodeId, NodeUsage, ResourceDecl, ResourceId, ResourceState};
use crate::lifetime::{order_in_range, step_usages};
use vstd::prelude::*;

verus! {

/// One access of the plan, in plan order, resolved to its physical resource.
#[derive(Clone, Copy, Debug, PartialEq, Eq, Structural)]
pub struct PlannedAccess {
    pub step: usize,
    pub resource: ResourceId,
    pub physical: usize,
    pub access: AccessKind,
    pub state: ResourceState,
}

/// A transition of a physical resource from one state to another.
#[derive(Clone, Copy, Debug, PartialEq, Eq, Structural)]
pub struct Barrier {
    pub physical: usize,
    pub from: ResourceState,
    pub to: ResourceState,
}

/// The accesses of step `p`.
pub open spec fn step_accesses(
    nodes: Seq<NodeDecl>,
    outputs: Seq<NodeUsage>,
    order: Seq<NodeId>,
    assignment: Seq<Option<usize>>,
    p: int,
) -> Seq<PlannedAccess> {
    step_usages(nodes, outputs, order, p).map_values(
        |u: NodeUsage|
            PlannedAccess {
                step: p as usize,
                resource: u.resource,
                physical: assignment[u.resource as int]->0,
                access: u.access,
                state: u.state,
            },
    )
}

/// The accesses of the steps before `p`, in order.
pub open spec fn accesses_through(
    nodes: Seq<NodeDecl>,
    outputs: Seq<NodeUsage>,
    order: Seq<NodeId>,
    assignment: Seq<Option<usize>>,
    p: nat,
) -> Seq<PlannedAccess>
    decreases p,
{
    if p == 0 {
        seq![]
    } else {
        accesses_through(nodes, outputs, order, assignment, (p - 1) as nat) + step_accesses(
            nodes,
            outputs,
            order,
            assignment,
            p - 1,
        )
    }
}

/// The state a physical resource is in when the frame starts: an external resource's entry
/// state, else undefined.
pub open spec fn initial_state(resources: Seq<ResourceDecl>, slot: PhysicalResource) -> ResourceState {
    match slot.external {
        Some(e) => resources[e as int].external->0.entry_state,
        None => ResourceState::Undefined,
    }
}

/// The state that physical resource `s` is left in by the accesses before `i`: the state of
/// the latest of them to `s`, or its initial state.
pub open spec fn state_before(init: Seq<ResourceState>, acc: Seq<PlannedAccess>, i: int, s: int) -> ResourceState
    decreases i,
{
    if i <= 0 {
        init[s]
    } else if acc[i - 1].physical == s {
        acc[i - 1].state
    } else {
        state_before(init, acc, i - 1, s)
    }
}

/// Some access before `i` touches physical resource `s`.
pub open spec fn accessed_before(acc: Seq<PlannedAccess>, i: int, s: int) -> bool
    decreases i,
{
    if i <= 0 {
        false
    } else {
        acc[i - 1].physical == s || accessed_before(acc, i - 1, s)
    }
}

/// Access `i` needs a barrier: its state differs from the one the resource is in, or it
/// writes after an earlier access (a hazard).
pub open spec fn needs_barrier(init: Seq<ResourceState>, acc: Seq<PlannedAccess>, i: int) -> bool {
    acc[i].state != state_before(init, acc, i, acc[i].physical as int) || (acc[i].access
        == AccessKind::Write && accessed_before(acc, i, acc[i].physical as int))
}

/// The barrier emitted before access `i`, if any.
pub open spec fn barrier_for(init: Seq<ResourceState>, acc: Seq<PlannedAccess>, i: int) -> Option<Barrier> {
    if needs_barrier(init, acc, i) {
        Some(
            Barrier {
                physical: acc[i].physical,
                from: state_before(init, acc, i, acc[i].physical as int),
                to: acc[i].state,
            },
        )
    } else {
        None
    }
}

/// The barriers that return external resources to their exit states, over the first `s`
/// slots, given the states `last` they are left in.
pub open spec fn exit_barriers(
    resources: Seq<ResourceDecl>,
    slots: Seq<PhysicalResource>,
    last: Seq<ResourceState>,
    s: nat,
) -> Seq<Barrier>
    decreases s,
{
    if s == 0 {
        seq![]
    } else {
        let prev = exit_barriers(resources, slots, last, (s - 1) as nat);
        let slot = slots[s - 1];
        match slot.external {
            Some(e) => {
                let exit = resources[e as int].external->0.exit_state;
                if last[s - 1] != exit {
                    prev.push(Barrier { physical: (s - 1) as usize, from: last[s - 1], to: exit })
                } else {
                    prev
                }
            },
            None => prev,
        }
    }
}

/// The state physical resource `s` is in before access `i` is the state of the latest
/// earlier access to `s`, or its initial state when there is none; and after the barrier
/// emitted for access `i` (or with none emitted), it is in the state the access requires,
/// the barrier starting from the state the resource was left in.
pub proof fn lemma_barriers_match_states(init: Seq<ResourceState>, acc: Seq<PlannedAccess>, i: int)
    requires
        0 <= i < acc.len(),
    ensures
        forall|j: int|
            0 <= j < i && acc[j].physical == acc[i].physical && (forall|m: int|
                j < m < i ==> (#[trigger] acc[m]).physical != acc[i].physical) ==> state_before(
                init,
                acc,
                i,
                acc[i].physical as int,
            ) == acc[j].state,
        (forall|j: int| 0 <= j < i ==> (#[trigger] acc[j]).physical != acc[i].physical) ==> state_before(
            init,
            acc,
            i,
            acc[i].physical as int,
        ) == init[acc[i].physical as int],
        barrier_for(init, acc, i) matches Some(b) ==> b.physical == acc[i].physical && b.from
            == state_before(init, acc, i, acc[i].physical as int) && b.to == acc[i].state,
        barrier_for(init, acc, i) is None ==> state_before(init, acc, i, acc[i].physical as int)
            == acc[i].state,
{
    let s = acc[i].physical as int;
    assert forall|j: int|
        0 <= j < i && acc[j].physical == s && (forall|m: int| j < m < i ==> (#[trigger] acc[m]).physical != s)
            implies state_before(init, acc, i, s) == acc[j].state by {
        lemma_state_before_latest(init, acc, i, j, s);
    }
    if forall|j: int| 0 <= j < i ==> (#[trigger] acc[j]).physical != s {
        lemma_state_before_untouched(init, acc, i, s);
    }
}

proof fn lemma_state_before_latest(init: Seq<ResourceState>, acc: Seq<PlannedAccess>, i: int, j: int, s: int)
    requires
        0 <= j < i <= acc.len(),
        acc[j].physical == s,
        forall|m: int| j < m < i ==> (#[trigger] acc[m]).physical != s,
    ensures
        state_before(init, acc, i, s) == acc[j].state,
    decreases i,
{
    if i - 1 != j {
        lemma_state_before_latest(init, acc, i - 1, j, s);
    }
}

proof fn lemma_state_before_untouched(init: Seq<ResourceState>, acc: Seq<PlannedAccess>, i: int, s: int)
    requires
        0 <= i <= acc.len(),
        forall|j: int| 0 <= j < i ==> (#[trigger] acc[j]).physical != s,
    ensures
        state_before(init, acc, i, s) == init[s],
    decreases i,
{
    if i > 0 {
        lemma_state_before_untouched(init, acc, i - 1, s);
    }
}

/// `b` returns the external resource of a slot below `n` from the state it is left in to
/// its exit state, which differ.
pub open spec fn restores_exit(
    resources: Seq<ResourceDecl>,
    slots: Seq<PhysicalResource>,
    last: Seq<ResourceState>,
    n: nat,
    b: Barrier,
) -> bool {
    &&& b.physical < n
    &&& slots[b.physical as int].external is Some
    &&& b.from == last[b.physical as int]
    &&& b.to == resources[slots[b.physical as int].external->0 as int].external->0.exit_state
    &&& b.from != b.to
}

/// The exit barriers return every external resource to its exit state: each barrier takes
/// the resource of one slot from the state it is left in to its exit state, slots in
/// increasing order, one barrier for every external slot whose state differs from its exit
/// state.
pub proof fn lemma_exit_barriers_restore(
    resources: Seq<ResourceDecl>,
    slots: Seq<PhysicalResource>,
    last: Seq<ResourceState>,
    n: nat,
)
    requires
        n <= slots.len(),
        n <= last.len(),
        n <= usize::MAX,
    ensures
        forall|i: int|
            0 <= i < exit_barriers(resources, slots, last, n).len() ==> restores_exit(
                resources,
                slots,
                last,
                n,
                #[trigger] exit_barriers(resources, slots, last, n)[i],
            ),
        forall|i: int, j: int|
            0 <= i < j < exit_barriers(resources, slots, last, n).len() ==> (#[trigger] exit_barriers(
                resources,
                slots,
                last,
                n,
            )[i]).physical < (#[trigger] exit_barriers(resources, slots, last, n)[j]).physical,
        forall|t: int|
            0 <= t < n && (#[trigger] slots[t]).external is Some && last[t]
                != resources[slots[t].external->0 as int].external->0.exit_state ==> exists|i: int|
                0 <= i < exit_barriers(resources, slots, last, n).len() && (#[trigger] exit_barriers(
                    resources,
                    slots,
                    last,
                    n,
                )[i]).physical == t,
    decreases n,
{
    if n > 0 {
        let m = (n - 1) as nat;
        lemma_exit_barriers_restore(resources, slots, last, m);
        let prev = exit_barriers(resources, slots, last, m);
        let cur = exit_barriers(resources, slots, last, n);
        if slots[m as int].external is Some && last[m as int] != resources[slots[m as int].external->0 as int].external->0.exit_state {
            let b = Barrier {
                physical: m as usize,
                from: last[m as int],
                to: resources[slots[m as int].external->0 as int].external->0.exit_state,
            };
            assert(cur == prev.push(b));
            assert forall|i: int| 0 <= i < cur.len() implies restores_exit(resources, slots, last, n, #[trigger] cur[i]) by {
                if i < prev.len() {
                    assert(cur[i] == prev[i]);
                    assert(restores_exit(resources, slots, last, m, prev[i]));
                }
            }
            assert forall|i: int, j: int| 0 <= i < j < cur.len() implies (#[trigger] cur[i]).physical < (#[trigger] cur[j]).physical by {
                assert(cur[i] == prev[i]);
                assert(restores_exit(resources, slots, last, m, prev[i]));
                if j < prev.len() {
                    assert(cur[j] == prev[j]);
                }
            }
            assert forall|t: int|
                0 <= t < n && (#[trigger] slots[t]).external is Some && last[t]
                    != resources[slots[t].external->0 as int].external->0.exit_state implies exists|i: int|
                    0 <= i < cur.len() && (#[trigger] cur[i]).physical == t by {
                if t < m {
                    let i = choose|i: int| 0 <= i < prev.len() && (#[trigger] prev[i]).physical == t;
                    assert(cur[i] == prev[i]);
                } else {
                    assert(cur[prev.len() as int] == b);
                }
            }
        } else {
            assert(cur == prev);
            assert forall|i: int| 0 <= i < cur.len() implies restores_exit(resources, slots, last, n, #[trigger] cur[i]) by {
                assert(restores_exit(resources, slots, last, m, prev[i]));
            }
        }
    }
}

/// The barrier before each access, and the states each physical resource is left in.
pub fn synthesize_barriers(init: &Vec<ResourceState>, acc: &Vec<PlannedAccess>) -> (r: (
    Vec<Option<Barrier>>,
    Vec<ResourceState>,
))
    requires
        forall|i: int| 0 <= i < acc@.len() ==> (#[trigger] acc@[i]).physical < init@.len(),
    ensures
        r.0@.len() == acc@.len(),
        forall|i: int| 0 <= i < acc@.len() ==> #[trigger] r.0@[i] == barrier_for(init@, acc@, i),
        r.1@.len() == init@.len(),
        forall|s: int| 0 <= s < init@.len() ==> #[trigger] r.1@[s] == state_before(init@, acc@, acc@.len() as int, s),
{
    let n_slots = init.len();
    let mut last: Vec<ResourceState> = init.clone();
    let mut touched: Vec<bool> = Vec::new();
    let mut s: usize = 0;
    while s < n_slots
        invariant
            s <= n_slots,
            touched@.len() == s,
            forall|x: int| 0 <= x < s ==> !(#[trigger] touched@[x]),
        decreases n_slots - s,
    {
        touched.push(false);
        s = s + 1;
    }
    assert(last@ =~= init@);
    let mut barriers: Vec<Option<Barrier>> = Vec::new();
    let mut i: usize = 0;
    while i < acc.len()
        invariant
            n_slots == init@.len(),
            forall|i: int| 0 <= i < acc@.len() ==> (#[trigger] acc@[i]).physical < init@.len(),
            i <= acc@.len(),
            last@.len() == n_slots,
            touched@.len() == n_slots,
            barriers@.len() == i,
            forall|j: int| 0 <= j < i ==> #[trigger] barriers@[j] == barrier_for(init@, acc@, j),
            forall|x: int| 0 <= x < n_slots ==> #[trigger] last@[x] == state_before(init@, acc@, i as int, x),
            forall|x: int| 0 <= x < n_slots ==> #[trigger] touched@[x] == accessed_before(acc@, i as int, x),
        decreases acc@.len() - i,
    {
        let a = acc[i];
        let s = a.physical;
        let needs = a.state != last[s] || (a.access == AccessKind::Write && touched[s]);
        if needs {
            barriers.push(Some(Barrier { physical: s, from: last[s], to: a.state }));
        } else {
            barriers.push(None);
        }
        last.set(s, a.state);
        touched.set(s, true);
        i = i + 1;
    }
    (barriers, last)
}

/// The barriers that return each external resource from the state `last` leaves it in to
/// its exit state, in slot order.
pub fn synthesize_exit_barriers(
    resources: &Vec<ResourceDecl>,
    slots: &Vec<PhysicalResource>,
    last: &Vec<ResourceState>,
) -> (r: Vec<Barrier>)
    requires
        last@.len() == slots@.len(),
        forall|s: int|
            0 <= s < slots@.len() && (#[trigger] slots@[s]).external is Some ==> slots@[s].external->0
                < resources@.len() && resources@[slots@[s].external->0 as int].external is Some,
    ensures
        r@ == exit_barriers(resources@, slots@, last@, slots@.len()),
{
    let mut out: Vec<Barrier> = Vec::new();
    let mut s: usize = 0;
    while s < slots.len()
        invariant
            last@.len() == slots@.len(),
            forall|s: int|
                0 <= s < slots@.len() && (#[trigger] slots@[s]).external is Some ==> slots@[s].external->0
                    < resources@.len() && resources@[slots@[s].external->0 as int].external is Some,
            s <= slots@.len(),
            out@ == exit_barriers(resources@, slots@, last@, s as nat),
        decreases slots@.len() - s,
    {
        if let Some(e) = slots[s].external {
            if let Some(binding) = resources[e].external {
                if last[s] != binding.exit_state {
                    out.push(Barrier { physical: s, from: last[s], to: binding.exit_state });
                }
            }
        }
        s = s + 1;
    }
    out
}

/// The initial state of each physical resource.
pub fn initial_states(resources: &Vec<ResourceDecl>, slots: &Vec<PhysicalResource>) -> (r: Vec<ResourceState>)
    requires
        forall|s: int|
            0 <= s < slots@.len() && (#[trigger] slots@[s]).external is Some ==> slots@[s].external->0
                < resources@.len() && resources@[slots@[s].external->0 as int].external is Some,
    ensures
        r@.len() == slots@.len(),
        forall|s: int| 0 <= s < slots@.len() ==> #[trigger] r@[s] == initial_state(resources@, slots@[s]),
{
    let mut out: Vec<ResourceState> = Vec::new();
    let mut s: usize = 0;
    while s < slots.len()
        invariant
            forall|s: int|
                0 <= s < slots@.len() && (#[trigger] slots@[s]).external is Some ==> slots@[s].external->0
                    < resources@.len() && resources@[slots@[s].external->0 as int].external is Some,
            s <= slots@.len(),
            out@.len() == s,
            forall|x: int| 0 <= x < s ==> #[trigger] out@[x] == initial_state(resources@, slots@[x]),
        decreases slots@.len() - s,
    {
        let st = match slots[s].external {
            Some(e) => match resources[e].external {
                Some(binding) => binding.entry_state,
                None => ResourceState::Undefined,
            },
            None => ResourceState::Undefined,
        };
        out.push(st);
        s = s + 1;
    }
    out
}

/// Lists the accesses of every step of the plan in order, each resolved to its physical
/// resource.
pub fn flatten_accesses(
    nodes: &Vec<NodeDecl>,
    outputs: &Vec<NodeUsage>,
    order: &Vec<NodeId>,
    assignment: &Vec<Option<usize>>,
) -> (r: Vec<PlannedAccess>)
    requires
        order_in_range(nodes@, order@),
        order@.len() < usize::MAX,
        forall|p: int, k: int|
            0 <= p <= order@.len() && 0 <= k < step_usages(nodes@, outputs@, order@, p).len() ==> (
            #[trigger] step_usages(nodes@, outputs@, order@, p)[k]).resource < assignment@.len()
                && assignment@[step_usages(nodes@, outputs@, order@, p)[k].resource as int] is Some,
    ensures
        r@ == accesses_through(nodes@, outputs@, order@, assignment@, (order@.len() + 1) as nat),
{
    let n_steps = order.len() + 1;
    let mut out: Vec<PlannedAccess> = Vec::new();
    let mut p: usize = 0;
    while p < n_steps
        invariant
            n_steps == order@.len() + 1,
            order_in_range(nodes@, order@),
            forall|p: int, k: int|
                0 <= p <= order@.len() && 0 <= k < step_usages(nodes@, outputs@, order@, p).len() ==> (
                #[trigger] step_usages(nodes@, outputs@, order@, p)[k]).resource < assignment@.len()
                    && assignment@[step_usages(nodes@, outputs@, order@, p)[k].resource as int] is Some,
            p <= n_steps,
            out@ == accesses_through(nodes@, outputs@, order@, assignment@, p as nat),
        decreases n_steps - p,
    {
        let us: &Vec<NodeUsage> = if p < order.len() {
            &nodes[order[p]].usages
        } else {
            outputs
        };
        assert(us@ == step_usages(nodes@, outputs@, order@, p as int));
        let ghost base = out@;
        let ghost step = step_accesses(nodes@, outputs@, order@, assignment@, p as int);
        let mut k: usize = 0;
        while k < us.len()
            invariant
                us@ == step_usages(nodes@, outputs@, order@, p as int),
                step == step_accesses(nodes@, outputs@, order@, assignment@, p as int),
                p < n_steps,
                n_steps == order@.len() + 1,
                forall|k: int|
                    0 <= k < us@.len() ==> (#[trigger] us@[k]).resource < assignment@.len()
                        && assignment@[us@[k].resource as int] is Some,
                k <= us@.len(),
                out@ == base + step.take(k as int),
            decreases us@.len() - k,
        {
            let u = us[k];
            let s = match assignment[u.resource] {
                Some(s) => s,
                None => 0,
            };
            out.push(PlannedAccess { step: p, resource: u.resource, physical: s, access: u.access, state: u.state });
            assert(step.take(k + 1) =~= step.take(k as int).push(step[k as int]));
            k = k + 1;
        }
        assert(step.take(us@.len() as int) =~= step);
        p = p + 1;
    }
    out
}

} // verus!
