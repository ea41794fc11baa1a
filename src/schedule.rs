//! The scheduler: a topological order of the nodes over the derived dependencies, where a
//! node becomes schedulable once all its dependencies are scheduled and ties go to the
//! node declared first.
use crate::graph::{edge, writes_into, AccessKind, GraphError, NodeDecl, NodeId, NodeUsage};
use vstd::prelude::*;
use vstd::set_lib::{lemma_int_range, lemma_len_subset, set_int_range};

verus! {

/// Node `i` is not scheduled yet and every node it depends on is.
pub open spec fn ready(nodes: Seq<NodeDecl>, done: Seq<NodeId>, i: int) -> bool {
    &&& 0 <= i < nodes.len()
    &&& !done.contains(i as NodeId)
    &&& forall|j: int| #[trigger] edge(nodes, j, i) ==> done.contains(j as NodeId)
}

/// The first ready node at index `i` or later.
pub open spec fn first_ready_from(nodes: Seq<NodeDecl>, done: Seq<NodeId>, i: int) -> Option<
    NodeId,
>
    decreases nodes.len() - i,
{
    if i < 0 || i >= nodes.len() {
        None
    } else if ready(nodes, done, i) {
        Some(i as NodeId)
    } else {
        first_ready_from(nodes, done, i + 1)
    }
}

/// Continues the schedule `done`: repeatedly appends the first ready node, and stops when
/// all nodes are scheduled or none is ready (a cycle).
pub open spec fn schedule_from(nodes: Seq<NodeDecl>, done: Seq<NodeId>) -> Seq<NodeId>
    decreases nodes.len() - done.len(),
{
    if done.len() >= nodes.len() {
        done
    } else {
        match first_ready_from(nodes, done, 0) {
            Some(i) => schedule_from(nodes, done.push(i)),
            None => done,
        }
    }
}

/// The scheduled order of the nodes; shorter than the node list exactly when the
/// dependencies have a cycle.
pub open spec fn schedule_order(nodes: Seq<NodeDecl>) -> Seq<NodeId> {
    schedule_from(nodes, seq![])
}

/// Every dependency of each scheduled node is scheduled before it, and no node repeats.
pub open spec fn valid_prefix(nodes: Seq<NodeDecl>, done: Seq<NodeId>) -> bool {
    &&& done.no_duplicates()
    &&& forall|k: int| 0 <= k < done.len() ==> (#[trigger] done[k]) < nodes.len()
    &&& forall|k: int, j: int|
        0 <= k < done.len() && #[trigger] edge(nodes, j, done[k] as int) ==> done.take(
            k,
        ).contains(j as NodeId)
}

/// Whether some usage of `ub` touches a resource that a usage of `ua` writes.
fn writes_into_exec(ua: &Vec<NodeUsage>, ub: &Vec<NodeUsage>) -> (b: bool)
    ensures
        b == writes_into(ua@, ub@),
{
    let mut k1: usize = 0;
    while k1 < ua.len()
        invariant
            k1 <= ua@.len(),
            forall|i1: int, i2: int|
                #![trigger ua@[i1], ub@[i2]]
                0 <= i1 < k1 && ua@[i1].access == AccessKind::Write && 0 <= i2 < ub@.len()
                    ==> ub@[i2].resource != ua@[i1].resource,
        decreases ua@.len() - k1,
    {
        if ua[k1].access == AccessKind::Write {
            let mut k2: usize = 0;
            while k2 < ub.len()
                invariant
                    k1 < ua@.len(),
                    ua@[k1 as int].access == AccessKind::Write,
                    k2 <= ub@.len(),
                    forall|i1: int, i2: int|
                        #![trigger ua@[i1], ub@[i2]]
                        0 <= i1 < k1 && ua@[i1].access == AccessKind::Write && 0 <= i2 < ub@.len()
                            ==> ub@[i2].resource != ua@[i1].resource,
                    forall|i2: int| 0 <= i2 < k2 ==> (#[trigger] ub@[i2]).resource != ua@[k1 as int].resource,
                decreases ub@.len() - k2,
            {
                if ub[k2].resource == ua[k1].resource {
                    assert(0 <= k1 < ua@.len() && ua@[k1 as int].access == AccessKind::Write && 0 <= k2
                        < ub@.len() && ub@[k2 as int].resource == ua@[k1 as int].resource);
                    return true;
                }
                k2 = k2 + 1;
            }
        }
        k1 = k1 + 1;
    }
    false
}

/// The dependency matrix: `m[a][b]` holds exactly when `a -> b`.
fn dependency_matrix(nodes: &Vec<NodeDecl>) -> (m: Vec<Vec<bool>>)
    ensures
        m@.len() == nodes@.len(),
        forall|a: int| 0 <= a < nodes@.len() ==> (#[trigger] m@[a])@.len() == nodes@.len(),
        forall|a: int, b: int|
            0 <= a < nodes@.len() && 0 <= b < nodes@.len() ==> (#[trigger] m@[a]@[b] <==> edge(
                nodes@,
                a,
                b,
            )),
{
    let n = nodes.len();
    let mut m: Vec<Vec<bool>> = Vec::new();
    let mut a: usize = 0;
    while a < n
        invariant
            n == nodes@.len(),
            a <= n,
            m@.len() == a,
            forall|x: int| 0 <= x < a ==> (#[trigger] m@[x])@.len() == n,
            forall|x: int, b: int| 0 <= x < a && 0 <= b < n ==> (#[trigger] m@[x]@[b] <==> edge(nodes@, x, b)),
        decreases n - a,
    {
        let mut row: Vec<bool> = Vec::new();
        let mut b: usize = 0;
        while b < n
            invariant
                n == nodes@.len(),
                a < n,
                b <= n,
                row@.len() == b,
                forall|y: int| 0 <= y < b ==> (#[trigger] row@[y] <==> edge(nodes@, a as int, y)),
            decreases n - b,
        {
            let e = a != b && writes_into_exec(&nodes[a].usages, &nodes[b].usages);
            row.push(e);
            b = b + 1;
        }
        m.push(row);
        a = a + 1;
    }
    m
}

/// The first ready node at index `i` or later is the one `first_ready_from` names.
proof fn lemma_first_ready_is_ready(nodes: Seq<NodeDecl>, done: Seq<NodeId>, i: int)
    requires
        0 <= i,
        nodes.len() <= usize::MAX,
        first_ready_from(nodes, done, i) is Some,
    ensures
        ready(nodes, done, first_ready_from(nodes, done, i)->0 as int),
        i <= first_ready_from(nodes, done, i)->0,
    decreases nodes.len() - i,
{
    if i < nodes.len() && !ready(nodes, done, i) {
        lemma_first_ready_is_ready(nodes, done, i + 1);
    }
}

/// Scheduling further keeps a valid prefix valid.
proof fn lemma_schedule_from_valid(nodes: Seq<NodeDecl>, done: Seq<NodeId>)
    requires
        valid_prefix(nodes, done),
        nodes.len() <= usize::MAX,
    ensures
        valid_prefix(nodes, schedule_from(nodes, done)),
    decreases nodes.len() - done.len(),
{
    if done.len() < nodes.len() {
        if let Some(i) = first_ready_from(nodes, done, 0) {
            lemma_first_ready_is_ready(nodes, done, 0);
            let next = done.push(i);
            assert forall|k: int, j: int|
                0 <= k < next.len() && #[trigger] edge(nodes, j, next[k] as int) implies next.take(
                    k,
                ).contains(j as NodeId) by {
                if k < done.len() {
                    assert(next.take(k) =~= done.take(k));
                    assert(next[k] == done[k]);
                } else {
                    assert(next.take(k) =~= done);
                }
            }
            assert(next.no_duplicates()) by {
                assert forall|x: int, y: int| 0 <= x < next.len() && 0 <= y < next.len() && x != y
                    implies next[x] != next[y] by {
                    if x < done.len() && y < done.len() {
                    } else if x < done.len() {
                        assert(done.contains(next[x]));
                    } else {
                        assert(done.contains(next[y]));
                    }
                }
            }
            lemma_schedule_from_valid(nodes, next);
        }
    }
}

/// A sequence of `n` distinct indices below `n` holds every index below `n`.
proof fn lemma_holds_every_index(order: Seq<NodeId>, n: nat)
    requires
        order.len() == n,
        order.no_duplicates(),
        forall|k: int| 0 <= k < order.len() ==> (#[trigger] order[k]) < n,
    ensures
        forall|x: int| 0 <= x < n ==> #[trigger] order.contains(x as NodeId),
{
    let s = order.map_values(|v: NodeId| v as int);
    assert(s.no_duplicates()) by {
        assert forall|i: int, j: int| 0 <= i < s.len() && 0 <= j < s.len() && i != j implies s[i] != s[j] by {
            assert(order[i] != order[j]);
        }
    }
    s.unique_seq_to_set();
    lemma_int_range(0, n as int);
    assert forall|x: int| 0 <= x < n implies #[trigger] order.contains(x as NodeId) by {
        if !order.contains(x as NodeId) {
            let rest = set_int_range(0, n as int).remove(x);
            assert(s.to_set().subset_of(rest)) by {
                assert forall|e: int| s.to_set().contains(e) implies rest.contains(e) by {
                    let i = choose|i: int| 0 <= i < s.len() && s[i] == e;
                    assert(order[i] != x as NodeId);
                }
            }
            lemma_len_subset(s.to_set(), rest);
        }
    }
}

/// The scheduled order, when it holds every node, is a topological order: every node
/// appears exactly once, and for every derived dependency `a -> b`, `a` is scheduled
/// before `b`.
pub proof fn lemma_schedule_is_topological(nodes: Seq<NodeDecl>)
    requires
        schedule_order(nodes).len() == nodes.len(),
        nodes.len() <= usize::MAX,
    ensures
        schedule_order(nodes).no_duplicates(),
        forall|k: int|
            0 <= k < schedule_order(nodes).len() ==> (#[trigger] schedule_order(nodes)[k])
                < nodes.len(),
        forall|a: int| 0 <= a < nodes.len() ==> #[trigger] schedule_order(nodes).contains(a as NodeId),
        forall|ka: int, kb: int|
            0 <= ka < nodes.len() && 0 <= kb < nodes.len() && #[trigger] edge(
                nodes,
                schedule_order(nodes)[ka] as int,
                schedule_order(nodes)[kb] as int,
            ) ==> ka < kb,
{
    let empty = Seq::<NodeId>::empty();
    assert(valid_prefix(nodes, empty));
    lemma_schedule_from_valid(nodes, empty);
    let order = schedule_order(nodes);
    lemma_holds_every_index(order, nodes.len());
    assert forall|ka: int, kb: int|
        0 <= ka < nodes.len() && 0 <= kb < nodes.len() && #[trigger] edge(
            nodes,
            order[ka] as int,
            order[kb] as int,
        ) implies ka < kb by {
        assert(order.take(kb).contains(order[ka]));
        let k3 = choose|k3: int| 0 <= k3 < order.take(kb).len() && order.take(kb)[k3] == order[ka];
        assert(order[k3] == order[ka]);
    }
}

/// Two graphs with the same declarations get the same scheduled order.
pub proof fn lemma_schedule_deterministic(n1: Seq<NodeDecl>, n2: Seq<NodeDecl>)
    requires
        n1.len() == n2.len(),
        forall|a: int| 0 <= a < n1.len() ==> (#[trigger] n1[a]).usages@ == n2[a].usages@,
    ensures
        schedule_order(n1) == schedule_order(n2),
{
    assert forall|a: int, b: int| #[trigger] edge(n1, a, b) == edge(n2, a, b) by {
        if 0 <= a < n1.len() && 0 <= b < n1.len() {
            assert(n1[a].usages@ == n2[a].usages@ && n1[b].usages@ == n2[b].usages@);
        }
    }
    lemma_schedule_from_same(n1, n2, seq![]);
}

proof fn lemma_first_ready_same(n1: Seq<NodeDecl>, n2: Seq<NodeDecl>, done: Seq<NodeId>, i: int)
    requires
        n1.len() == n2.len(),
        forall|a: int, b: int| #[trigger] edge(n1, a, b) == edge(n2, a, b),
    ensures
        first_ready_from(n1, done, i) == first_ready_from(n2, done, i),
    decreases n1.len() - i,
{
    if ready(n1, done, i) {
        assert forall|j: int| #[trigger] edge(n2, j, i) implies done.contains(j as NodeId) by {
            assert(edge(n1, j, i));
        }
    }
    if ready(n2, done, i) {
        assert forall|j: int| #[trigger] edge(n1, j, i) implies done.contains(j as NodeId) by {
            assert(edge(n2, j, i));
        }
    }
    if 0 <= i < n1.len() {
        lemma_first_ready_same(n1, n2, done, i + 1);
    }
}

proof fn lemma_schedule_from_same(n1: Seq<NodeDecl>, n2: Seq<NodeDecl>, done: Seq<NodeId>)
    requires
        n1.len() == n2.len(),
        forall|a: int, b: int| #[trigger] edge(n1, a, b) == edge(n2, a, b),
    ensures
        schedule_from(n1, done) == schedule_from(n2, done),
    decreases n1.len() - done.len(),
{
    lemma_first_ready_same(n1, n2, done, 0);
    if done.len() < n1.len() {
        if let Some(i) = first_ready_from(n1, done, 0) {
            lemma_schedule_from_same(n1, n2, done.push(i));
        }
    }
}

/// Computes the scheduled order of the nodes, or `CyclicDependency` when the derived
/// dependencies have a cycle.
pub fn schedule(nodes: &Vec<NodeDecl>) -> (r: Result<Vec<NodeId>, GraphError>)
    ensures
        match r {
            Ok(order) => schedule_order(nodes@).len() == nodes@.len() && order@ == schedule_order(
                nodes@,
            ),
            Err(e) => schedule_order(nodes@).len() < nodes@.len() && e
                == GraphError::CyclicDependency,
        },
{
    let n = nodes.len();
    let m = dependency_matrix(nodes);
    let mut done: Vec<NodeId> = Vec::new();
    let mut in_done: Vec<bool> = Vec::new();
    let mut i: usize = 0;
    while i < n
        invariant
            i <= n,
            in_done@.len() == i,
            forall|x: int| 0 <= x < i ==> !(#[trigger] in_done@[x]),
        decreases n - i,
    {
        in_done.push(false);
        i = i + 1;
    }
    while done.len() < n
        invariant
            n == nodes@.len(),
            m@.len() == n,
            forall|a: int| 0 <= a < n ==> (#[trigger] m@[a])@.len() == n,
            forall|a: int, b: int| 0 <= a < n && 0 <= b < n ==> (#[trigger] m@[a]@[b] <==> edge(nodes@, a, b)),
            in_done@.len() == n,
            done@.len() <= n,
            forall|x: int| 0 <= x < n ==> (#[trigger] in_done@[x] <==> done@.contains(x as NodeId)),
            schedule_from(nodes@, done@) == schedule_order(nodes@),
        decreases n - done@.len(),
    {
        // Find the first ready node.
        let mut i: usize = 0;
        let mut found = false;
        while !found && i < n
            invariant
                n == nodes@.len(),
                m@.len() == n,
                forall|a: int| 0 <= a < n ==> (#[trigger] m@[a])@.len() == n,
                forall|a: int, b: int| 0 <= a < n && 0 <= b < n ==> (#[trigger] m@[a]@[b] <==> edge(nodes@, a, b)),
                in_done@.len() == n,
                forall|x: int| 0 <= x < n ==> (#[trigger] in_done@[x] <==> done@.contains(x as NodeId)),
                i <= n,
                !found ==> first_ready_from(nodes@, done@, 0) == first_ready_from(nodes@, done@, i as int),
                found ==> i < n && first_ready_from(nodes@, done@, 0) == Some(i as NodeId),
            decreases n - i + if found { 0int } else { 1int },
        {
            if !in_done[i] {
                let mut j: usize = 0;
                let mut ok = true;
                while j < n
                    invariant
                        n == nodes@.len(),
                        i < n,
                        m@.len() == n,
                        forall|a: int| 0 <= a < n ==> (#[trigger] m@[a])@.len() == n,
                        in_done@.len() == n,
                        j <= n,
                        ok <==> forall|y: int| 0 <= y < j ==> (#[trigger] m@[y]@[i as int] ==> in_done@[y]),
                    decreases n - j,
                {
                    if m[j][i] && !in_done[j] {
                        ok = false;
                    }
                    j = j + 1;
                }
                if ok {
                    assert(ready(nodes@, done@, i as int)) by {
                        assert forall|y: int| #[trigger] edge(nodes@, y, i as int) implies done@.contains(y as NodeId) by {
                            assert(m@[y]@[i as int]);
                        }
                    }
                    found = true;
                }
                if !ok {
                    assert(!ready(nodes@, done@, i as int)) by {
                        let y = choose|y: int| 0 <= y < n && !(#[trigger] m@[y]@[i as int] ==> in_done@[y]);
                        assert(edge(nodes@, y, i as int));
                    }
                }
            }
            if !found {
                i = i + 1;
            }
        }
        if !found {
            assert(first_ready_from(nodes@, done@, i as int) is None);
            return Err(GraphError::CyclicDependency);
        }
        let ghost before = done@;
        done.push(i);
        in_done.set(i, true);
        proof {
            assert forall|x: int| 0 <= x < n implies (#[trigger] in_done@[x] <==> done@.contains(x as NodeId)) by {
                if x == i {
                    assert(done@[before.len() as int] == i);
                } else if done@.contains(x as NodeId) {
                    let k = choose|k: int| 0 <= k < done@.len() && done@[k] == x as NodeId;
                    assert(k < before.len());
                    assert(before[k] == x as NodeId);
                } else {
                    if before.contains(x as NodeId) {
                        let k = choose|k: int| 0 <= k < before.len() && before[k] == x as NodeId;
                        assert(done@[k] == x as NodeId);
                    }
                }
            }
        }
    }
    Ok(done)
}

} // verus!
