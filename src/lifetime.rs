//! Lifetime analysis: the first and last step of the plan that touches each resource.
//!
//! Step `p < order.len()` runs node `order[p]`; step `order.len()` performs the output
//! copies into external images.
use crate::graph::{list_uses, NodeDecl, NodeId, NodeUsage, ResourceId};
use vstd::prelude::*;

verus! {

/// The inclusive range of steps during which a resource is in use.
#[derive(Clone, Copy, Debug, PartialEq, Eq, Structural)]
pub struct Interval {
    pub first: usize,
    pub last: usize,
}

/// Two intervals share at least one step.
pub open spec fn overlaps(a: Interval, b: Interval) -> bool {
    !(a.last < b.first || b.last < a.first)
}

/// The usages of step `p` of the plan.
pub open spec fn step_usages(
    nodes: Seq<NodeDecl>,
    outputs: Seq<NodeUsage>,
    order: Seq<NodeId>,
    p: int,
) -> Seq<NodeUsage> {
    if p < order.len() {
        nodes[order[p] as int].usages@
    } else {
        outputs
    }
}

/// Step `p` touches resource `r`.
pub open spec fn step_uses(
    nodes: Seq<NodeDecl>,
    outputs: Seq<NodeUsage>,
    order: Seq<NodeId>,
    p: int,
    r: ResourceId,
) -> bool {
    0 <= p <= order.len() && list_uses(step_usages(nodes, outputs, order, p), r)
}

/// `iv` is the lifetime of `r`: `None` when no step touches it, else the first and the last
/// step that do.
pub open spec fn is_lifetime(
    nodes: Seq<NodeDecl>,
    outputs: Seq<NodeUsage>,
    order: Seq<NodeId>,
    r: ResourceId,
    iv: Option<Interval>,
) -> bool {
    match iv {
        None => forall|p: int| !#[trigger] step_uses(nodes, outputs, order, p, r),
        Some(i) => {
            &&& i.first <= i.last <= order.len()
            &&& step_uses(nodes, outputs, order, i.first as int, r)
            &&& step_uses(nodes, outputs, order, i.last as int, r)
            &&& forall|p: int|
                #[trigger] step_uses(nodes, outputs, order, p, r) ==> i.first <= p <= i.last
        },
    }
}

/// Every entry of the order names a node.
pub open spec fn order_in_range(nodes: Seq<NodeDecl>, order: Seq<NodeId>) -> bool {
    forall|p: int| 0 <= p < order.len() ==> (#[trigger] order[p]) < nodes.len()
}

fn list_uses_exec(us: &Vec<NodeUsage>, r: ResourceId) -> (b: bool)
    ensures
        b == list_uses(us@, r),
{
    let mut k: usize = 0;
    while k < us.len()
        invariant
            k <= us@.len(),
            forall|j: int| 0 <= j < k ==> (#[trigger] us@[j]).resource != r,
        decreases us@.len() - k,
    {
        if us[k].resource == r {
            return true;
        }
        k = k + 1;
    }
    false
}

/// The lifetime of resource `r` over the plan with node order `order`.
pub fn lifetime_of(
    nodes: &Vec<NodeDecl>,
    outputs: &Vec<NodeUsage>,
    order: &Vec<NodeId>,
    r: ResourceId,
) -> (iv: Option<Interval>)
    requires
        order_in_range(nodes@, order@),
        order@.len() < usize::MAX,
    ensures
        is_lifetime(nodes@, outputs@, order@, r, iv),
{
    let n_steps = order.len() + 1;
    let mut first: Option<usize> = None;
    let mut last: usize = 0;
    let mut p: usize = 0;
    while p < n_steps
        invariant
            n_steps == order@.len() + 1,
            order_in_range(nodes@, order@),
            p <= n_steps,
            first is None ==> forall|q: int| q < p ==> !#[trigger] step_uses(nodes@, outputs@, order@, q, r),
            first matches Some(f) ==> {
                &&& f <= last < p
                &&& step_uses(nodes@, outputs@, order@, f as int, r)
                &&& step_uses(nodes@, outputs@, order@, last as int, r)
                &&& forall|q: int|
                    q < p && #[trigger] step_uses(nodes@, outputs@, order@, q, r) ==> f <= q <= last
            },
        decreases n_steps - p,
    {
        let used = if p < order.len() {
            list_uses_exec(&nodes[order[p]].usages, r)
        } else {
            list_uses_exec(outputs, r)
        };
        if used {
            if first.is_none() {
                first = Some(p);
            }
            last = p;
        }
        p = p + 1;
    }
    match first {
        None => None,
        Some(f) => Some(Interval { first: f, last }),
    }
}

/// The lifetimes of all `n_resources` resources.
pub fn lifetimes(
    nodes: &Vec<NodeDecl>,
    outputs: &Vec<NodeUsage>,
    order: &Vec<NodeId>,
    n_resources: usize,
) -> (ivs: Vec<Option<Interval>>)
    requires
        order_in_range(nodes@, order@),
        order@.len() < usize::MAX,
    ensures
        ivs@.len() == n_resources,
        forall|r: int|
            0 <= r < n_resources ==> is_lifetime(nodes@, outputs@, order@, r as ResourceId, #[trigger] ivs@[r]),
{
    let mut ivs: Vec<Option<Interval>> = Vec::new();
    let mut r: usize = 0;
    while r < n_resources
        invariant
            order_in_range(nodes@, order@),
            order@.len() < usize::MAX,
            r <= n_resources,
            ivs@.len() == r,
            forall|x: int| 0 <= x < r ==> is_lifetime(nodes@, outputs@, order@, x as ResourceId, #[trigger] ivs@[x]),
        decreases n_resources - r,
    {
        let iv = lifetime_of(nodes, outputs, order, r);
        ivs.push(iv);
        r = r + 1;
    }
    ivs
}

} // verus!
