//! The aliasing allocator: maps logical resources to physical slots.
//!
//! External resources are pinned, one slot each, in declaration order. Transient resources
//! are placed in increasing order of lifetime start (ties in declaration order), each in
//! the lowest-indexed slot of the same shape, with at least its usage capabilities, whose
//! last occupant's lifetime ended strictly before; otherwise in a new slot.
use crate::graph::{flags_cover, ResourceDecl, ResourceId, ResourceShape};
use crate::lifetime::{overlaps, Interval};
use vstd::prelude::*;

verus! {

/// A physical resource: the storage that one or more logical resources map to.
#[derive(Clone, Copy, Debug, PartialEq, Eq, Structural)]
pub struct PhysicalResource {
    pub shape: ResourceShape,
    pub usage_flags: u32,
    /// For a pinned external resource, the logical resource it backs.
    pub external: Option<ResourceId>,
    /// The last step of the latest occupant's lifetime.
    pub last_end: usize,
}

/// Slots, and per logical resource the slot it maps to.
pub struct Allocation {
    pub slots: Seq<PhysicalResource>,
    pub assignment: Seq<Option<usize>>,
}

/// A transient resource can take over slot `slot` from step `start` on.
pub open spec fn fits(slot: PhysicalResource, decl: ResourceDecl, start: usize) -> bool {
    &&& slot.external is None
    &&& slot.shape == decl.shape
    &&& flags_cover(slot.usage_flags, decl.usage_flags)
    &&& slot.last_end < start
}

/// The lowest-indexed slot at `s` or later that fits.
pub open spec fn first_fit_from(
    slots: Seq<PhysicalResource>,
    decl: ResourceDecl,
    start: usize,
    s: int,
) -> Option<usize>
    decreases slots.len() - s,
{
    if s < 0 || s >= slots.len() {
        None
    } else if fits(slots[s], decl, start) {
        Some(s as usize)
    } else {
        first_fit_from(slots, decl, start, s + 1)
    }
}

/// Places transient resource `r` with lifetime `iv`.
pub open spec fn place(st: Allocation, r: int, decl: ResourceDecl, iv: Interval) -> Allocation {
    match first_fit_from(st.slots, decl, iv.first, 0) {
        Some(s) => Allocation {
            slots: st.slots.update(s as int, PhysicalResource { last_end: iv.last, ..st.slots[s as int] }),
            assignment: st.assignment.update(r, Some(s)),
        },
        None => Allocation {
            slots: st.slots.push(
                PhysicalResource {
                    shape: decl.shape,
                    usage_flags: decl.usage_flags,
                    external: None,
                    last_end: iv.last,
                },
            ),
            assignment: st.assignment.update(r, Some(st.slots.len() as usize)),
        },
    }
}

/// Processes resource `r` at step `p`: places it if it is transient and its lifetime starts
/// at `p`.
pub open spec fn alloc_step(
    st: Allocation,
    resources: Seq<ResourceDecl>,
    ivs: Seq<Option<Interval>>,
    p: int,
    r: int,
) -> Allocation {
    if resources[r].external is None && ivs[r] is Some && ivs[r]->0.first == p {
        place(st, r, resources[r], ivs[r]->0)
    } else {
        st
    }
}

/// The pinned slots of the first `r` resources.
pub open spec fn pinned(resources: Seq<ResourceDecl>, r: int) -> Allocation
    decreases r,
{
    if r <= 0 {
        Allocation { slots: seq![], assignment: Seq::new(resources.len(), |i: int| None) }
    } else {
        let st = pinned(resources, r - 1);
        if resources[r - 1].external is Some {
            Allocation {
                slots: st.slots.push(
                    PhysicalResource {
                        shape: resources[r - 1].shape,
                        usage_flags: resources[r - 1].usage_flags,
                        external: Some((r - 1) as ResourceId),
                        last_end: 0,
                    },
                ),
                assignment: st.assignment.update(r - 1, Some(st.slots.len() as usize)),
            }
        } else {
            st
        }
    }
}

/// The allocation after all resources are processed at every step before `p`, and the
/// first `r` resources at step `p`.
pub open spec fn alloc_through(
    resources: Seq<ResourceDecl>,
    ivs: Seq<Option<Interval>>,
    p: nat,
    r: nat,
) -> Allocation
    decreases p, r,
{
    if r == 0 {
        if p == 0 {
            pinned(resources, resources.len() as int)
        } else {
            alloc_through(resources, ivs, (p - 1) as nat, resources.len())
        }
    } else if r > resources.len() {
        alloc_through(resources, ivs, p, resources.len())
    } else {
        alloc_step(alloc_through(resources, ivs, p, (r - 1) as nat), resources, ivs, p as int, r - 1)
    }
}

/// The allocation of a plan with `n_steps` steps.
pub open spec fn allocation(
    resources: Seq<ResourceDecl>,
    ivs: Seq<Option<Interval>>,
    n_steps: nat,
) -> Allocation {
    alloc_through(resources, ivs, n_steps, 0)
}

/// The number of resources that are mapped to a slot.
pub open spec fn n_assigned(assignment: Seq<Option<usize>>) -> nat
    decreases assignment.len(),
{
    if assignment.len() == 0 {
        0
    } else {
        n_assigned(assignment.drop_last()) + if assignment.last() is Some {
            1nat
        } else {
            0nat
        }
    }
}

proof fn lemma_n_assigned_le(a: Seq<Option<usize>>)
    ensures
        n_assigned(a) <= a.len(),
    decreases a.len(),
{
    if a.len() > 0 {
        lemma_n_assigned_le(a.drop_last());
    }
}

proof fn lemma_n_assigned_update(a: Seq<Option<usize>>, i: int, v: usize)
    requires
        0 <= i < a.len(),
        a[i] is None,
    ensures
        n_assigned(a.update(i, Some(v))) == n_assigned(a) + 1,
    decreases a.len(),
{
    let b = a.update(i, Some(v));
    if i == a.len() - 1 {
        assert(b.drop_last() =~= a.drop_last());
    } else {
        assert(b.drop_last() =~= a.drop_last().update(i, Some(v)));
        lemma_n_assigned_update(a.drop_last(), i, v);
    }
}

proof fn lemma_n_assigned_none(n: nat)
    ensures
        n_assigned(Seq::new(n, |i: int| None::<usize>)) == 0,
    decreases n,
{
    if n > 0 {
        assert(Seq::new(n, |i: int| None::<usize>).drop_last() =~= Seq::new((n - 1) as nat, |i: int| None::<usize>));
        lemma_n_assigned_none((n - 1) as nat);
    }
}

/// Resource `x` has been processed by the time resource `r` is reached at step `p`.
pub open spec fn processed(ivs: Seq<Option<Interval>>, x: int, p: int, r: int) -> bool {
    ivs[x] is Some && (ivs[x]->0.first < p || (ivs[x]->0.first == p && x < r))
}

/// Every lifetime starts no later than it ends.
pub open spec fn lifetimes_ordered(ivs: Seq<Option<Interval>>) -> bool {
    forall|x: int| 0 <= x < ivs.len() && (#[trigger] ivs[x]) is Some ==> ivs[x]->0.first <= ivs[x]->0.last
}

/// What holds of the allocation at every point of the processing.
pub open spec fn alloc_inv(
    resources: Seq<ResourceDecl>,
    ivs: Seq<Option<Interval>>,
    st: Allocation,
    p: int,
    r: int,
) -> bool {
    let n = resources.len();
    &&& st.assignment.len() == n
    &&& st.slots.len() <= n_assigned(st.assignment)
    &&& forall|x: int| 0 <= x < n && (#[trigger] st.assignment[x]) is Some ==> st.assignment[x]->0 < st.slots.len()
    &&& forall|x: int|
        0 <= x < n && (#[trigger] resources[x]).external is Some ==> st.assignment[x] is Some
            && st.slots[st.assignment[x]->0 as int].external == Some(x as ResourceId)
    &&& forall|x: int|
        0 <= x < n && (#[trigger] resources[x]).external is None ==> (st.assignment[x] is Some
            <==> processed(ivs, x, p, r))
    &&& forall|s: int|
        0 <= s < st.slots.len() && (#[trigger] st.slots[s]).external is Some ==> st.slots[s].external->0 < n
            && st.assignment[st.slots[s].external->0 as int] == Some(s as usize)
    &&& forall|x: int|
        0 <= x < n && resources[x].external is None && (#[trigger] st.assignment[x]) is Some ==> st.slots[st.assignment[x]->0 as int].external is None
            && ivs[x]->0.last <= st.slots[st.assignment[x]->0 as int].last_end
    &&& forall|x: int, y: int|
        0 <= x < n && 0 <= y < n && x != y && resources[x].external is None && resources[y].external is None
            && (#[trigger] st.assignment[x]) is Some && st.assignment[x] == (#[trigger] st.assignment[y])
            ==> !overlaps(ivs[x]->0, ivs[y]->0)
}

proof fn lemma_first_fit(slots: Seq<PhysicalResource>, decl: ResourceDecl, start: usize, s: int)
    requires
        0 <= s,
        slots.len() <= usize::MAX,
        first_fit_from(slots, decl, start, s) is Some,
    ensures
        first_fit_from(slots, decl, start, s)->0 < slots.len(),
        fits(slots[first_fit_from(slots, decl, start, s)->0 as int], decl, start),
    decreases slots.len() - s,
{
    if s < slots.len() && !fits(slots[s], decl, start) {
        lemma_first_fit(slots, decl, start, s + 1);
    }
}

proof fn lemma_pinned(resources: Seq<ResourceDecl>, r: int)
    requires
        0 <= r <= resources.len(),
        resources.len() <= usize::MAX,
    ensures
        pinned(resources, r).assignment.len() == resources.len(),
        pinned(resources, r).slots.len() <= n_assigned(pinned(resources, r).assignment),
        forall|x: int| 0 <= x < resources.len() && (#[trigger] pinned(resources, r).assignment[x]) is Some
            ==> pinned(resources, r).assignment[x]->0 < pinned(resources, r).slots.len() && x < r
                && resources[x].external is Some,
        forall|x: int| 0 <= x < r && (#[trigger] resources[x]).external is Some ==> pinned(resources, r).assignment[x] is Some
            && pinned(resources, r).slots[pinned(resources, r).assignment[x]->0 as int].external == Some(x as ResourceId),
        forall|s: int| 0 <= s < pinned(resources, r).slots.len() ==> (#[trigger] pinned(resources, r).slots[s]).external is Some
            && pinned(resources, r).slots[s].external->0 < r
            && pinned(resources, r).assignment[pinned(resources, r).slots[s].external->0 as int] == Some(s as usize),
    decreases r,
{
    if r <= 0 {
        lemma_n_assigned_none(resources.len());
    } else {
        lemma_pinned(resources, r - 1);
        let st = pinned(resources, r - 1);
        if resources[r - 1].external is Some {
            lemma_n_assigned_le(st.assignment);
            assert(st.assignment[r - 1] is None);
            lemma_n_assigned_update(st.assignment, r - 1, st.slots.len() as usize);
        }
    }
}

proof fn lemma_alloc_step(
    resources: Seq<ResourceDecl>,
    ivs: Seq<Option<Interval>>,
    st: Allocation,
    p: int,
    r: int,
)
    requires
        0 <= r < resources.len(),
        resources.len() <= usize::MAX,
        ivs.len() == resources.len(),
        lifetimes_ordered(ivs),
        alloc_inv(resources, ivs, st, p, r),
    ensures
        alloc_inv(resources, ivs, alloc_step(st, resources, ivs, p, r), p, r + 1),
{
    let n = resources.len();
    let next = alloc_step(st, resources, ivs, p, r);
    lemma_n_assigned_le(st.assignment);
    if resources[r].external is None && ivs[r] is Some && ivs[r]->0.first == p {
        let iv = ivs[r]->0;
        assert(st.assignment[r] is None);
        let decl = resources[r];
        match first_fit_from(st.slots, decl, iv.first, 0) {
            Some(s) => {
                lemma_first_fit(st.slots, decl, iv.first, 0);
                lemma_n_assigned_update(st.assignment, r, s);
                assert forall|x: int, y: int|
                    0 <= x < n && 0 <= y < n && x != y && resources[x].external is None && resources[y].external is None
                        && (#[trigger] next.assignment[x]) is Some && next.assignment[x] == (#[trigger] next.assignment[y])
                        implies !overlaps(ivs[x]->0, ivs[y]->0) by {
                    if x == r {
                        assert(ivs[y]->0.last <= st.slots[s as int].last_end);
                    } else if y == r {
                        assert(ivs[x]->0.last <= st.slots[s as int].last_end);
                    } else {
                        assert(st.assignment[x] == next.assignment[x]);
                        assert(st.assignment[y] == next.assignment[y]);
                    }
                }
                assert forall|x: int|
                    0 <= x < n && resources[x].external is None && (#[trigger] next.assignment[x]) is Some implies next.slots[next.assignment[x]->0 as int].external is None
                        && ivs[x]->0.last <= next.slots[next.assignment[x]->0 as int].last_end by {
                    if x != r && st.assignment[x] == Some(s) {
                        assert(ivs[x]->0.last <= st.slots[s as int].last_end);
                    }
                }
                assert forall|x: int| 0 <= x < n && (#[trigger] resources[x]).external is None implies (next.assignment[x] is Some
                    <==> processed(ivs, x, p, r + 1)) by {
                }
                assert forall|x: int| 0 <= x < n && (#[trigger] resources[x]).external is Some implies next.assignment[x] is Some
                    && next.slots[next.assignment[x]->0 as int].external == Some(x as ResourceId) by {
                    assert(st.assignment[x] is Some);
                }
            },
            None => {
                let s = st.slots.len() as usize;
                lemma_n_assigned_update(st.assignment, r, s);
                assert forall|x: int, y: int|
                    0 <= x < n && 0 <= y < n && x != y && resources[x].external is None && resources[y].external is None
                        && (#[trigger] next.assignment[x]) is Some && next.assignment[x] == (#[trigger] next.assignment[y])
                        implies !overlaps(ivs[x]->0, ivs[y]->0) by {
                    if x != r && y != r {
                        assert(st.assignment[x] == next.assignment[x]);
                        assert(st.assignment[y] == next.assignment[y]);
                    }
                }
                assert forall|x: int| 0 <= x < n && (#[trigger] resources[x]).external is None implies (next.assignment[x] is Some
                    <==> processed(ivs, x, p, r + 1)) by {
                }
                assert forall|x: int| 0 <= x < n && (#[trigger] resources[x]).external is Some implies next.assignment[x] is Some
                    && next.slots[next.assignment[x]->0 as int].external == Some(x as ResourceId) by {
                    assert(st.assignment[x] is Some);
                }
            },
        }
    } else {
        assert forall|x: int| 0 <= x < n && (#[trigger] resources[x]).external is None implies (next.assignment[x] is Some
            <==> processed(ivs, x, p, r + 1)) by {
        }
    }
}

proof fn lemma_alloc_through(resources: Seq<ResourceDecl>, ivs: Seq<Option<Interval>>, p: nat, r: nat)
    requires
        r <= resources.len(),
        resources.len() <= usize::MAX,
        ivs.len() == resources.len(),
        lifetimes_ordered(ivs),
    ensures
        alloc_inv(resources, ivs, alloc_through(resources, ivs, p, r), p as int, r as int),
    decreases p, r,
{
    let n = resources.len();
    if r == 0 {
        if p == 0 {
            lemma_pinned(resources, n as int);
            let st = pinned(resources, n as int);
            assert forall|x: int| 0 <= x < n && (#[trigger] resources[x]).external is None implies (st.assignment[x] is Some
                <==> processed(ivs, x, 0, 0)) by {
                if st.assignment[x] is Some {
                    assert(resources[x].external is Some);
                }
            }
        } else {
            lemma_alloc_through(resources, ivs, (p - 1) as nat, n);
            let st = alloc_through(resources, ivs, p, r);
            assert forall|x: int| 0 <= x < n && (#[trigger] resources[x]).external is None implies (st.assignment[x] is Some
                <==> processed(ivs, x, p as int, 0)) by {
                assert(processed(ivs, x, p - 1, n as int) == processed(ivs, x, p as int, 0));
            }
        }
    } else {
        lemma_alloc_through(resources, ivs, p, (r - 1) as nat);
        lemma_alloc_step(resources, ivs, alloc_through(resources, ivs, p, (r - 1) as nat), p as int, r - 1);
    }
}

/// The allocation maps every external resource to a slot of its own, and every transient
/// resource whose lifetime starts within the plan to a slot; no two logical resources that
/// share a slot have overlapping lifetimes.
pub proof fn lemma_aliasing_sound(resources: Seq<ResourceDecl>, ivs: Seq<Option<Interval>>, n_steps: nat)
    requires
        resources.len() <= usize::MAX,
        ivs.len() == resources.len(),
        lifetimes_ordered(ivs),
        forall|x: int| 0 <= x < ivs.len() && (#[trigger] ivs[x]) is Some ==> ivs[x]->0.first < n_steps,
    ensures
        ({
            let a = allocation(resources, ivs, n_steps);
            &&& a.assignment.len() == resources.len()
            &&& forall|x: int| 0 <= x < resources.len() && (#[trigger] a.assignment[x]) is Some
                ==> a.assignment[x]->0 < a.slots.len()
            &&& forall|x: int| 0 <= x < resources.len() ==> (#[trigger] a.assignment[x] is Some
                <==> (resources[x].external is Some || ivs[x] is Some))
            &&& forall|s: int| 0 <= s < a.slots.len() && (#[trigger] a.slots[s]).external is Some
                ==> a.slots[s].external->0 < resources.len()
                    && resources[a.slots[s].external->0 as int].external is Some
                    && a.assignment[a.slots[s].external->0 as int] == Some(s as usize)
            &&& forall|x: int, y: int|
                0 <= x < resources.len() && 0 <= y < resources.len() && x != y
                    && (#[trigger] a.assignment[x]) is Some && a.assignment[x] == (#[trigger] a.assignment[y])
                    ==> resources[x].external is None && resources[y].external is None
                        && !overlaps(ivs[x]->0, ivs[y]->0)
        }),
{
    lemma_alloc_through(resources, ivs, n_steps, 0);
    let a = allocation(resources, ivs, n_steps);
    assert forall|s: int| 0 <= s < a.slots.len() && (#[trigger] a.slots[s]).external is Some
        implies a.slots[s].external->0 < resources.len()
            && resources[a.slots[s].external->0 as int].external is Some
            && a.assignment[a.slots[s].external->0 as int] == Some(s as usize) by {
        let e = a.slots[s].external->0 as int;
        lemma_n_assigned_le(a.assignment);
        if resources[e].external is None {
            assert(a.slots[a.assignment[e]->0 as int].external is None);
        }
    }
    assert forall|x: int| 0 <= x < resources.len() implies (#[trigger] a.assignment[x] is Some
        <==> (resources[x].external is Some || ivs[x] is Some)) by {
        if resources[x].external is None && ivs[x] is Some {
            assert(processed(ivs, x, n_steps as int, 0));
        }
    }
    assert forall|x: int, y: int|
        0 <= x < resources.len() && 0 <= y < resources.len() && x != y
            && (#[trigger] a.assignment[x]) is Some && a.assignment[x] == (#[trigger] a.assignment[y])
            implies resources[x].external is None && resources[y].external is None
                && !overlaps(ivs[x]->0, ivs[y]->0) by {
        let s = a.assignment[x]->0 as int;
        if resources[x].external is Some {
            assert(a.slots[s].external == Some(x as ResourceId));
            if resources[y].external is Some {
                assert(a.slots[s].external == Some(y as ResourceId));
            }
        } else if resources[y].external is Some {
            assert(a.slots[s].external == Some(y as ResourceId));
        }
    }
}

fn fits_exec(slot: &PhysicalResource, decl: &ResourceDecl, start: usize) -> (b: bool)
    ensures
        b == fits(*slot, *decl, start),
{
    slot.external.is_none() && slot.shape == decl.shape && slot.usage_flags & decl.usage_flags
        == decl.usage_flags && slot.last_end < start
}

/// Maps the logical resources to physical slots, given their lifetimes over a plan of
/// `n_steps` steps.
pub fn allocate(resources: &Vec<ResourceDecl>, ivs: &Vec<Option<Interval>>, n_steps: usize) -> (r: (
    Vec<PhysicalResource>,
    Vec<Option<usize>>,
))
    requires
        ivs@.len() == resources@.len(),
        lifetimes_ordered(ivs@),
    ensures
        r.0@ == allocation(resources@, ivs@, n_steps as nat).slots,
        r.1@ == allocation(resources@, ivs@, n_steps as nat).assignment,
{
    let n = resources.len();
    let mut slots: Vec<PhysicalResource> = Vec::new();
    let mut assignment: Vec<Option<usize>> = Vec::new();
    let mut r: usize = 0;
    while r < n
        invariant
            n == resources@.len(),
            r <= n,
            assignment@.len() == r,
            forall|x: int| 0 <= x < r ==> (#[trigger] assignment@[x]) is None,
        decreases n - r,
    {
        assignment.push(None);
        r = r + 1;
    }
    assert(assignment@ =~= pinned(resources@, 0).assignment);
    let mut r: usize = 0;
    while r < n
        invariant
            n == resources@.len(),
            r <= n,
            slots@ == pinned(resources@, r as int).slots,
            assignment@ == pinned(resources@, r as int).assignment,
            assignment@.len() == n,
        decreases n - r,
    {
        if resources[r].external.is_some() {
            assignment.set(r, Some(slots.len()));
            slots.push(
                PhysicalResource {
                    shape: resources[r].shape,
                    usage_flags: resources[r].usage_flags,
                    external: Some(r),
                    last_end: 0,
                },
            );
        }
        r = r + 1;
    }
    let mut p: usize = 0;
    while p < n_steps
        invariant
            n == resources@.len(),
            ivs@.len() == n,
            lifetimes_ordered(ivs@),
            p <= n_steps,
            slots@ == alloc_through(resources@, ivs@, p as nat, 0).slots,
            assignment@ == alloc_through(resources@, ivs@, p as nat, 0).assignment,
        decreases n_steps - p,
    {
        proof {
            lemma_alloc_through(resources@, ivs@, p as nat, 0);
        }
        let mut r: usize = 0;
        while r < n
            invariant
                n == resources@.len(),
                ivs@.len() == n,
                p < n_steps,
                r <= n,
                slots@ == alloc_through(resources@, ivs@, p as nat, r as nat).slots,
                assignment@ == alloc_through(resources@, ivs@, p as nat, r as nat).assignment,
                assignment@.len() == n,
            decreases n - r,
        {
            let decl = resources[r];
            if decl.external.is_none() {
                if let Some(iv) = ivs[r] {
                    if iv.first == p {
                        let mut s: usize = 0;
                        let mut found = false;
                        while !found && s < slots.len()
                            invariant
                                s <= slots@.len(),
                                !found ==> first_fit_from(slots@, decl, iv.first, 0) == first_fit_from(slots@, decl, iv.first, s as int),
                                found ==> s < slots@.len() && first_fit_from(slots@, decl, iv.first, 0) == Some(s),
                            decreases slots@.len() - s + if found { 0int } else { 1int },
                        {
                            if fits_exec(&slots[s], &decl, iv.first) {
                                found = true;
                            } else {
                                s = s + 1;
                            }
                        }
                        if found {
                            let old_slot = slots[s];
                            slots.set(s, PhysicalResource { last_end: iv.last, ..old_slot });
                            assignment.set(r, Some(s));
                        } else {
                            assignment.set(r, Some(slots.len()));
                            slots.push(
                                PhysicalResource {
                                    shape: decl.shape,
                                    usage_flags: decl.usage_flags,
                                    external: None,
                                    last_end: iv.last,
                                },
                            );
                        }
                    }
                }
            }
            r = r + 1;
        }
        p = p + 1;
    }
    (slots, assignment)
}

} // verus!
