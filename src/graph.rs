//! Logical resources and nodes of one frame, and the builder that declares them.
use vstd::prelude::*;

verus! {

/// Index of a logical resource in declaration order.
pub type ResourceId = usize;

/// Index of a node (pass) in declaration order.
pub type NodeId = usize;

/// Usage capability: the resource can be bound as a color render target.
pub const USAGE_RENDER_TARGET: u32 = 1;

/// Usage capability: the resource can be bound as a depth/stencil target.
pub const USAGE_DEPTH_STENCIL: u32 = 2;

/// Usage capability: the resource can be sampled or read by shaders.
pub const USAGE_SAMPLED: u32 = 4;

/// Usage capability: the resource can be read and written as storage.
pub const USAGE_STORAGE: u32 = 8;

/// Usage capability: the resource can be the source of a copy.
pub const USAGE_COPY_SRC: u32 = 16;

/// Usage capability: the resource can be the destination of a copy.
pub const USAGE_COPY_DST: u32 = 32;

/// Usage capability: the resource can be presented.
pub const USAGE_PRESENT: u32 = 64;

/// Shape of an image: format, extent, sample count, mip and array counts.
#[derive(Clone, Copy, Debug, PartialEq, Eq, Structural)]
pub struct ImageDesc {
    pub format: u32,
    pub width: u32,
    pub height: u32,
    pub depth: u32,
    pub samples: u32,
    pub mip_count: u32,
    pub layer_count: u32,
}

/// Kind and shape of a resource: an image, or a buffer of a given size in bytes.
#[derive(Clone, Copy, Debug, PartialEq, Eq, Structural)]
pub enum ResourceShape {
    Image(ImageDesc),
    Buffer(u64),
}

/// The GPU access state of a resource (layout and pipeline stage together).
#[derive(Clone, Copy, Debug, PartialEq, Eq, Structural)]
pub enum ResourceState {
    Undefined,
    Present,
    RenderTarget,
    DepthWrite,
    DepthRead,
    ShaderResource,
    UnorderedAccess,
    CopySrc,
    CopyDst,
}

/// The usage capability that a resource needs to be in a state.
pub open spec fn state_usage(s: ResourceState) -> u32 {
    match s {
        ResourceState::Undefined => 0,
        ResourceState::Present => USAGE_PRESENT,
        ResourceState::RenderTarget => USAGE_RENDER_TARGET,
        ResourceState::DepthWrite => USAGE_DEPTH_STENCIL,
        ResourceState::DepthRead => USAGE_DEPTH_STENCIL,
        ResourceState::ShaderResource => USAGE_SAMPLED,
        ResourceState::UnorderedAccess => USAGE_STORAGE,
        ResourceState::CopySrc => USAGE_COPY_SRC,
        ResourceState::CopyDst => USAGE_COPY_DST,
    }
}

/// Every capability bit of `need` is present in `flags`.
pub open spec fn flags_cover(flags: u32, need: u32) -> bool {
    flags & need == need
}

impl ResourceState {
    /// The usage capability this state requires.
    pub fn required_usage(&self) -> (r: u32)
        ensures
            r == state_usage(*self),
    {
        match self {
            ResourceState::Undefined => 0,
            ResourceState::Present => USAGE_PRESENT,
            ResourceState::RenderTarget => USAGE_RENDER_TARGET,
            ResourceState::DepthWrite => USAGE_DEPTH_STENCIL,
            ResourceState::DepthRead => USAGE_DEPTH_STENCIL,
            ResourceState::ShaderResource => USAGE_SAMPLED,
            ResourceState::UnorderedAccess => USAGE_STORAGE,
            ResourceState::CopySrc => USAGE_COPY_SRC,
            ResourceState::CopyDst => USAGE_COPY_DST,
        }
    }
}

/// Whether a usage reads or writes its resource. A read-write usage is declared as both.
#[derive(Clone, Copy, Debug, PartialEq, Eq, Structural)]
pub enum AccessKind {
    Read,
    Write,
}

/// A resource together with the state the node needs it in.
#[derive(Clone, Copy, Debug, PartialEq, Eq, Structural)]
pub struct ResourceUsage {
    pub resource: ResourceId,
    pub state: ResourceState,
}

/// One access of a node to a resource, as stored in the graph.
#[derive(Clone, Copy, Debug, PartialEq, Eq, Structural)]
pub struct NodeUsage {
    pub resource: ResourceId,
    pub access: AccessKind,
    pub state: ResourceState,
}

/// The already-existing resource an external declaration wraps, with its state contract.
#[derive(Clone, Copy, Debug, PartialEq, Eq, Structural)]
pub struct ExternalBinding {
    pub handle: u64,
    pub entry_state: ResourceState,
    pub exit_state: ResourceState,
}

/// A logical resource: its shape, the capabilities it is created with, and for an
/// external resource the handle it wraps.
#[derive(Clone, Copy, Debug, PartialEq, Eq, Structural)]
pub struct ResourceDecl {
    pub shape: ResourceShape,
    pub usage_flags: u32,
    pub external: Option<ExternalBinding>,
}

/// A logical node: a name and its ordered resource usages.
pub struct NodeDecl {
    pub name: String,
    pub usages: Vec<NodeUsage>,
}

/// A declaration that an external image's final contents are copied from another resource.
#[derive(Clone, Copy, Debug, PartialEq, Eq, Structural)]
pub struct ExternalOutput {
    pub external: ResourceId,
    pub source: ResourceId,
}

/// A client programming error in the graph declaration.
#[derive(Clone, Copy, Debug, PartialEq, Eq, Structural)]
pub enum GraphError {
    /// A usage or output names a resource that was never declared.
    UnknownResource,
    /// A resource is written again with no read since the previous write.
    AmbiguousWriteOrder,
    /// Nodes depend on each other in a cycle.
    CyclicDependency,
    /// An external resource's entry or exit state needs a capability it lacks.
    IncompatibleExternalState,
    /// An output copy targets a resource that is not external.
    NotExternal,
}

/// Usage `k` of the list writes resource `r`.
pub open spec fn usage_writes_at(us: Seq<NodeUsage>, k: int, r: ResourceId) -> bool {
    0 <= k < us.len() && us[k].resource == r && us[k].access == AccessKind::Write
}

/// Usage `k` of the list reads resource `r`.
pub open spec fn usage_reads_at(us: Seq<NodeUsage>, k: int, r: ResourceId) -> bool {
    0 <= k < us.len() && us[k].resource == r && us[k].access == AccessKind::Read
}

/// Some usage of the list writes `r`.
pub open spec fn list_writes(us: Seq<NodeUsage>, r: ResourceId) -> bool {
    exists|k: int| usage_writes_at(us, k, r)
}

/// Some usage of the list reads `r`.
pub open spec fn list_reads(us: Seq<NodeUsage>, r: ResourceId) -> bool {
    exists|k: int| usage_reads_at(us, k, r)
}

/// Some usage of the list touches `r`.
pub open spec fn list_uses(us: Seq<NodeUsage>, r: ResourceId) -> bool {
    exists|k: int| 0 <= k < us.len() && us[k].resource == r
}

/// The usages of node `a`.
pub open spec fn usages_of(nodes: Seq<NodeDecl>, a: int) -> Seq<NodeUsage> {
    nodes[a].usages@
}

/// Some usage of `ub` touches a resource that a usage of `ua` writes.
pub open spec fn writes_into(ua: Seq<NodeUsage>, ub: Seq<NodeUsage>) -> bool {
    exists|k1: int, k2: int|
        #![trigger ua[k1], ub[k2]]
        0 <= k1 < ua.len() && ua[k1].access == AccessKind::Write && 0 <= k2 < ub.len()
            && ub[k2].resource == ua[k1].resource
}

/// The derived dependency `a -> b`: node `b` reads or writes a resource that node `a` writes.
pub open spec fn edge(nodes: Seq<NodeDecl>, a: int, b: int) -> bool {
    &&& 0 <= a < nodes.len()
    &&& 0 <= b < nodes.len()
    &&& a != b
    &&& writes_into(usages_of(nodes, a), usages_of(nodes, b))
}

/// After the nodes declared so far, `r` was written by the last node touching it and not
/// read since.
pub open spec fn written_unread(nodes: Seq<NodeDecl>, r: ResourceId) -> bool
    decreases nodes.len(),
{
    if nodes.len() == 0 {
        false
    } else if list_writes(nodes.last().usages@, r) {
        true
    } else if list_reads(nodes.last().usages@, r) {
        false
    } else {
        written_unread(nodes.drop_last(), r)
    }
}

/// Adding a node with these usages would write a resource whose previous write was never
/// read.
pub open spec fn ambiguous_write(nodes: Seq<NodeDecl>, us: Seq<NodeUsage>) -> bool {
    exists|r: ResourceId|
        list_writes(us, r) && !list_reads(us, r) && #[trigger] written_unread(nodes, r)
}

/// The usages a list of reads and a list of writes become, reads first.
pub open spec fn usages_from(reads: Seq<ResourceUsage>, writes: Seq<ResourceUsage>) -> Seq<
    NodeUsage,
> {
    reads.map_values(
        |u: ResourceUsage| NodeUsage { resource: u.resource, access: AccessKind::Read, state: u.state },
    ) + writes.map_values(
        |u: ResourceUsage| NodeUsage { resource: u.resource, access: AccessKind::Write, state: u.state },
    )
}

/// The declarations of one frame's graph.
pub struct RenderGraphBuilder {
    pub resources: Vec<ResourceDecl>,
    pub nodes: Vec<NodeDecl>,
    pub outputs: Vec<ExternalOutput>,
    /// The accesses of the output copies, two per output: the source read, the external written.
    pub output_usages: Vec<NodeUsage>,
    /// Per resource, whether it was written and not read since.
    pub pending_writes: Vec<bool>,
}

/// The accesses that one output copy makes.
pub open spec fn output_usage_pair(o: ExternalOutput) -> Seq<NodeUsage> {
    seq![
        NodeUsage { resource: o.source, access: AccessKind::Read, state: ResourceState::CopySrc },
        NodeUsage { resource: o.external, access: AccessKind::Write, state: ResourceState::CopyDst },
    ]
}

/// The accesses of a list of output copies, in order.
pub open spec fn outputs_usages(os: Seq<ExternalOutput>) -> Seq<NodeUsage>
    decreases os.len(),
{
    if os.len() == 0 {
        seq![]
    } else {
        outputs_usages(os.drop_last()) + output_usage_pair(os.last())
    }
}

impl RenderGraphBuilder {
    /// Every usage and output names a declared resource, outputs target distinct external
    /// resources, and the derived bookkeeping matches the declarations.
    pub open spec fn wf(&self) -> bool {
        &&& forall|a: int, k: int|
            0 <= a < self.nodes@.len() && 0 <= k < self.nodes@[a].usages@.len() ==> (
            #[trigger] self.nodes@[a].usages@[k]).resource < self.resources@.len()
        &&& forall|i: int|
            0 <= i < self.outputs@.len() ==> (#[trigger] self.outputs@[i]).source
                < self.resources@.len() && self.outputs@[i].external < self.resources@.len()
                && self.resources@[self.outputs@[i].external as int].external.is_some()
        &&& forall|i: int, j: int|
            0 <= i < j < self.outputs@.len() ==> (#[trigger] self.outputs@[i]).external
                != (#[trigger] self.outputs@[j]).external
        &&& self.output_usages@ == outputs_usages(self.outputs@)
        &&& self.pending_writes@.len() == self.resources@.len()
        &&& forall|r: int|
            0 <= r < self.resources@.len() ==> #[trigger] self.pending_writes@[r]
                == written_unread(self.nodes@, r as ResourceId)
    }

    /// An empty graph.
    pub fn new() -> (g: Self)
        ensures
            g.wf(),
            g.resources@.len() == 0,
            g.nodes@.len() == 0,
            g.outputs@.len() == 0,
    {
        let g = RenderGraphBuilder {
            resources: Vec::new(),
            nodes: Vec::new(),
            outputs: Vec::new(),
            output_usages: Vec::new(),
            pending_writes: Vec::new(),
        };
        assert(g.output_usages@ =~= outputs_usages(g.outputs@));
        g
    }

    fn push_resource(&mut self, decl: ResourceDecl) -> (id: ResourceId)
        requires
            old(self).wf(),
            old(self).resources@.len() < usize::MAX,
        ensures
            final(self).wf(),
            id == old(self).resources@.len(),
            final(self).resources@ == old(self).resources@.push(decl),
            final(self).nodes@ == old(self).nodes@,
            final(self).outputs@ == old(self).outputs@,
    {
        let id = self.resources.len();
        self.resources.push(decl);
        self.pending_writes.push(false);
        proof {
            lemma_written_unread_untouched(self.nodes@, id);
        }
        id
    }

    /// Registers a transient image with no backing memory yet.
    pub fn create_image(&mut self, desc: ImageDesc, usage_flags: u32) -> (id: ResourceId)
        requires
            old(self).wf(),
            old(self).resources@.len() < usize::MAX,
        ensures
            final(self).wf(),
            id == old(self).resources@.len(),
            final(self).resources@ == old(self).resources@.push(
                ResourceDecl { shape: ResourceShape::Image(desc), usage_flags, external: None },
            ),
            final(self).nodes@ == old(self).nodes@,
            final(self).outputs@ == old(self).outputs@,
    {
        self.push_resource(
            ResourceDecl { shape: ResourceShape::Image(desc), usage_flags, external: None },
        )
    }

    /// Registers a transient buffer of `size` bytes with no backing memory yet.
    pub fn create_buffer(&mut self, size: u64, usage_flags: u32) -> (id: ResourceId)
        requires
            old(self).wf(),
            old(self).resources@.len() < usize::MAX,
        ensures
            final(self).wf(),
            id == old(self).resources@.len(),
            final(self).resources@ == old(self).resources@.push(
                ResourceDecl { shape: ResourceShape::Buffer(size), usage_flags, external: None },
            ),
            final(self).nodes@ == old(self).nodes@,
            final(self).outputs@ == old(self).outputs@,
    {
        self.push_resource(
            ResourceDecl { shape: ResourceShape::Buffer(size), usage_flags, external: None },
        )
    }

    fn add_external(
        &mut self,
        handle: u64,
        shape: ResourceShape,
        usage_flags: u32,
        entry_state: ResourceState,
        exit_state: ResourceState,
    ) -> (r: Result<ResourceId, GraphError>)
        requires
            old(self).wf(),
            old(self).resources@.len() < usize::MAX,
        ensures
            final(self).wf(),
            final(self).nodes@ == old(self).nodes@,
            final(self).outputs@ == old(self).outputs@,
            flags_cover(usage_flags, state_usage(entry_state)) && flags_cover(
                usage_flags,
                state_usage(exit_state),
            ) ==> r == Ok::<ResourceId, GraphError>(old(self).resources.len())
                && final(self).resources@ == old(self).resources@.push(
                ResourceDecl {
                    shape,
                    usage_flags,
                    external: Some(ExternalBinding { handle, entry_state, exit_state }),
                },
            ),
            !(flags_cover(usage_flags, state_usage(entry_state)) && flags_cover(
                usage_flags,
                state_usage(exit_state),
            )) ==> r == Err::<ResourceId, GraphError>(GraphError::IncompatibleExternalState)
                && final(self).resources@ == old(self).resources@,
    {
        let entry_need = entry_state.required_usage();
        let exit_need = exit_state.required_usage();
        if usage_flags & entry_need != entry_need || usage_flags & exit_need != exit_need {
            return Err(GraphError::IncompatibleExternalState);
        }
        let binding = ExternalBinding { handle, entry_state, exit_state };
        Ok(self.push_resource(ResourceDecl { shape, usage_flags, external: Some(binding) }))
    }

    /// Registers an image the graph does not own, which is in `entry_state` when the frame
    /// starts and must be left in `exit_state`. Fails when either state needs a capability
    /// that `usage_flags` lacks.
    pub fn add_external_image(
        &mut self,
        handle: u64,
        desc: ImageDesc,
        usage_flags: u32,
        entry_state: ResourceState,
        exit_state: ResourceState,
    ) -> (r: Result<ResourceId, GraphError>)
        requires
            old(self).wf(),
            old(self).resources@.len() < usize::MAX,
        ensures
            final(self).wf(),
            final(self).nodes@ == old(self).nodes@,
            final(self).outputs@ == old(self).outputs@,
            flags_cover(usage_flags, state_usage(entry_state)) && flags_cover(
                usage_flags,
                state_usage(exit_state),
            ) ==> r == Ok::<ResourceId, GraphError>(old(self).resources.len())
                && final(self).resources@ == old(self).resources@.push(
                ResourceDecl {
                    shape: ResourceShape::Image(desc),
                    usage_flags,
                    external: Some(ExternalBinding { handle, entry_state, exit_state }),
                },
            ),
            !(flags_cover(usage_flags, state_usage(entry_state)) && flags_cover(
                usage_flags,
                state_usage(exit_state),
            )) ==> r == Err::<ResourceId, GraphError>(GraphError::IncompatibleExternalState)
                && final(self).resources@ == old(self).resources@,
    {
        self.add_external(handle, ResourceShape::Image(desc), usage_flags, entry_state, exit_state)
    }

    /// Registers a buffer of `size` bytes the graph does not own, with its entry and exit
    /// states. Fails when either state needs a capability that `usage_flags` lacks.
    pub fn add_external_buffer(
        &mut self,
        handle: u64,
        size: u64,
        usage_flags: u32,
        entry_state: ResourceState,
        exit_state: ResourceState,
    ) -> (r: Result<ResourceId, GraphError>)
        requires
            old(self).wf(),
            old(self).resources@.len() < usize::MAX,
        ensures
            final(self).wf(),
            final(self).nodes@ == old(self).nodes@,
            final(self).outputs@ == old(self).outputs@,
            flags_cover(usage_flags, state_usage(entry_state)) && flags_cover(
                usage_flags,
                state_usage(exit_state),
            ) ==> r == Ok::<ResourceId, GraphError>(old(self).resources.len())
                && final(self).resources@ == old(self).resources@.push(
                ResourceDecl {
                    shape: ResourceShape::Buffer(size),
                    usage_flags,
                    external: Some(ExternalBinding { handle, entry_state, exit_state }),
                },
            ),
            !(flags_cover(usage_flags, state_usage(entry_state)) && flags_cover(
                usage_flags,
                state_usage(exit_state),
            )) ==> r == Err::<ResourceId, GraphError>(GraphError::IncompatibleExternalState)
                && final(self).resources@ == old(self).resources@,
    {
        self.add_external(handle, ResourceShape::Buffer(size), usage_flags, entry_state, exit_state)
    }
}


/// Some usage of the list names a resource outside `0..n_resources`.
pub open spec fn unknown_reference(n_resources: nat, us: Seq<NodeUsage>) -> bool {
    exists|k: int| 0 <= k < us.len() && #[trigger] us[k].resource >= n_resources
}

/// Some usage before position `k` reads `r`.
pub open spec fn prefix_reads(us: Seq<NodeUsage>, k: int, r: ResourceId) -> bool {
    exists|j: int| 0 <= j < k && #[trigger] usage_reads_at(us, j, r)
}

/// Some usage before position `k` writes `r`.
pub open spec fn prefix_writes(us: Seq<NodeUsage>, k: int, r: ResourceId) -> bool {
    exists|j: int| 0 <= j < k && #[trigger] usage_writes_at(us, j, r)
}

/// Whether some usage of the list reads `r`.
fn reads_resource(us: &Vec<NodeUsage>, r: ResourceId) -> (b: bool)
    ensures
        b == list_reads(us@, r),
{
    let mut k: usize = 0;
    while k < us.len()
        invariant
            k <= us@.len(),
            forall|j: int| 0 <= j < k ==> !usage_reads_at(us@, j, r),
        decreases us@.len() - k,
    {
        if us[k].resource == r && us[k].access == AccessKind::Read {
            assert(usage_reads_at(us@, k as int, r));
            return true;
        }
        k = k + 1;
    }
    false
}

impl RenderGraphBuilder {
    /// Declares a node that reads the resources of `reads` and writes those of `writes`
    /// (reads first). Fails when a usage names an unknown resource, or when it writes a
    /// resource whose previous write no node has read since (ambiguous order).
    #[verifier::loop_isolation(false)]
    pub fn add_node(
        &mut self,
        name: String,
        reads: Vec<ResourceUsage>,
        writes: Vec<ResourceUsage>,
    ) -> (r: Result<NodeId, GraphError>)
        requires
            old(self).wf(),
            reads@.len() + writes@.len() <= usize::MAX,
        ensures
            final(self).wf(),
            final(self).resources@ == old(self).resources@,
            final(self).outputs@ == old(self).outputs@,
            unknown_reference(old(self).resources@.len(), usages_from(reads@, writes@)) ==> r
                == Err::<NodeId, GraphError>(GraphError::UnknownResource) && final(self).nodes@
                == old(self).nodes@,
            !unknown_reference(old(self).resources@.len(), usages_from(reads@, writes@))
                && ambiguous_write(old(self).nodes@, usages_from(reads@, writes@)) ==> r == Err::<
                NodeId,
                GraphError,
            >(GraphError::AmbiguousWriteOrder) && final(self).nodes@ == old(self).nodes@,
            !unknown_reference(old(self).resources@.len(), usages_from(reads@, writes@))
                && !ambiguous_write(old(self).nodes@, usages_from(reads@, writes@)) ==> r == Ok::<
                NodeId,
                GraphError,
            >(old(self).nodes.len()) && final(self).nodes@.len() == old(self).nodes@.len() + 1
                && final(self).nodes@.drop_last() == old(self).nodes@ && final(self).nodes@.last().name
                == name && final(self).nodes@.last().usages@ == usages_from(reads@, writes@),
    {
        let ghost us_spec = usages_from(reads@, writes@);
        let ghost nodes0 = self.nodes@;
        let ghost outputs0 = self.outputs@;
        let ghost resources0 = self.resources@;
        let mut usages: Vec<NodeUsage> = Vec::new();
        let mut i: usize = 0;
        while i < reads.len()
            invariant
                i <= reads@.len(),
                usages@.len() == i,
                forall|k: int| 0 <= k < i ==> #[trigger] usages@[k] == us_spec[k],
                us_spec == usages_from(reads@, writes@),
            decreases reads@.len() - i,
        {
            usages.push(NodeUsage { resource: reads[i].resource, access: AccessKind::Read, state: reads[i].state });
            i = i + 1;
        }
        let mut i: usize = 0;
        while i < writes.len()
            invariant
                i <= writes@.len(),
                usages@.len() == reads@.len() + i,
                forall|k: int| 0 <= k < reads@.len() + i ==> #[trigger] usages@[k] == us_spec[k],
                us_spec == usages_from(reads@, writes@),
                reads@.len() + writes@.len() <= usize::MAX,
            decreases writes@.len() - i,
        {
            usages.push(NodeUsage { resource: writes[i].resource, access: AccessKind::Write, state: writes[i].state });
            i = i + 1;
        }
        assert(usages@ =~= us_spec);
        let n_resources = self.resources.len();
        let mut k: usize = 0;
        while k < usages.len()
            invariant
                k <= usages@.len(),
                n_resources == self.resources@.len(),
                forall|j: int| 0 <= j < k ==> #[trigger] usages@[j].resource < n_resources,
            decreases usages@.len() - k,
        {
            if usages[k].resource >= n_resources {
                return Err(GraphError::UnknownResource);
            }
            k = k + 1;
        }
        let mut k: usize = 0;
        while k < usages.len()
            invariant
                self.wf(),
                k <= usages@.len(),
                n_resources == self.resources@.len(),
                forall|j: int| 0 <= j < usages@.len() ==> #[trigger] usages@[j].resource < n_resources,
                forall|j: int|
                    0 <= j < k && usages@[j].access == AccessKind::Write && written_unread(
                        self.nodes@,
                        #[trigger] usages@[j].resource,
                    ) ==> list_reads(usages@, usages@[j].resource),
            decreases usages@.len() - k,
        {
            let res = usages[k].resource;
            if usages[k].access == AccessKind::Write && self.pending_writes[res] && !reads_resource(&usages, res) {
                assert(usage_writes_at(usages@, k as int, res));
                return Err(GraphError::AmbiguousWriteOrder);
            }
            k = k + 1;
        }
        assert(!ambiguous_write(self.nodes@, usages@)) by {
            assert forall|r: ResourceId|
                list_writes(usages@, r) && !list_reads(usages@, r) implies !#[trigger] written_unread(self.nodes@, r) by {
                let j = choose|j: int| usage_writes_at(usages@, j, r);
                assert(usages@[j].resource == r);
            }
        }
        // Update the pending-write flags: reads clear them, then writes set them.
        let ghost old_pending = self.pending_writes@;
        assert(forall|r: int|
            0 <= r < n_resources ==> #[trigger] old_pending[r] == written_unread(nodes0, r as ResourceId));
        let mut k: usize = 0;
        while k < usages.len()
            invariant
                k <= usages@.len(),
                n_resources == self.resources@.len(),
                self.pending_writes@.len() == n_resources,
                self.nodes@ == nodes0,
                self.outputs@ == outputs0,
                self.output_usages@ == outputs_usages(outputs0),
                self.resources@ == resources0,
                forall|j: int| 0 <= j < usages@.len() ==> #[trigger] usages@[j].resource < n_resources,
                forall|r: int|
                    0 <= r < n_resources ==> #[trigger] self.pending_writes@[r] == if prefix_reads(
                        usages@,
                        k as int,
                        r as ResourceId,
                    ) {
                        false
                    } else {
                        old_pending[r as int]
                    },
            decreases usages@.len() - k,
        {
            if usages[k].access == AccessKind::Read {
                let res = usages[k].resource;
                self.pending_writes.set(res, false);
            }
            assert forall|r: int| 0 <= r < n_resources implies (#[trigger] prefix_reads(usages@, k + 1, r as ResourceId)
                <==> prefix_reads(usages@, k as int, r as ResourceId) || usage_reads_at(usages@, k as int, r as ResourceId)) by {
                if prefix_reads(usages@, k + 1, r as ResourceId) {
                    let j = choose|j: int| 0 <= j < k + 1 && #[trigger] usage_reads_at(usages@, j, r as ResourceId);
                    if j < k {
                        assert(prefix_reads(usages@, k as int, r as ResourceId));
                    }
                }
                if prefix_reads(usages@, k as int, r as ResourceId) {
                    let j = choose|j: int| 0 <= j < k && #[trigger] usage_reads_at(usages@, j, r as ResourceId);
                    assert(0 <= j < k + 1 && usage_reads_at(usages@, j, r as ResourceId));
                }
                if usage_reads_at(usages@, k as int, r as ResourceId) {
                    assert(0 <= k < k + 1 && usage_reads_at(usages@, k as int, r as ResourceId));
                }
            }
            k = k + 1;
        }
        let ghost mid_pending = self.pending_writes@;
        let mut k: usize = 0;
        while k < usages.len()
            invariant
                k <= usages@.len(),
                n_resources == self.resources@.len(),
                self.pending_writes@.len() == n_resources,
                self.nodes@ == nodes0,
                self.outputs@ == outputs0,
                self.output_usages@ == outputs_usages(outputs0),
                self.resources@ == resources0,
                forall|j: int| 0 <= j < usages@.len() ==> #[trigger] usages@[j].resource < n_resources,
                forall|r: int|
                    0 <= r < n_resources ==> #[trigger] self.pending_writes@[r] == if prefix_writes(
                        usages@,
                        k as int,
                        r as ResourceId,
                    ) {
                        true
                    } else {
                        mid_pending[r as int]
                    },
            decreases usages@.len() - k,
        {
            if usages[k].access == AccessKind::Write {
                let res = usages[k].resource;
                self.pending_writes.set(res, true);
            }
            assert forall|r: int| 0 <= r < n_resources implies (#[trigger] prefix_writes(usages@, k + 1, r as ResourceId)
                <==> prefix_writes(usages@, k as int, r as ResourceId) || usage_writes_at(usages@, k as int, r as ResourceId)) by {
                if prefix_writes(usages@, k + 1, r as ResourceId) {
                    let j = choose|j: int| 0 <= j < k + 1 && #[trigger] usage_writes_at(usages@, j, r as ResourceId);
                    if j < k {
                        assert(prefix_writes(usages@, k as int, r as ResourceId));
                    }
                }
                if prefix_writes(usages@, k as int, r as ResourceId) {
                    let j = choose|j: int| 0 <= j < k && #[trigger] usage_writes_at(usages@, j, r as ResourceId);
                    assert(0 <= j < k + 1 && usage_writes_at(usages@, j, r as ResourceId));
                }
                if usage_writes_at(usages@, k as int, r as ResourceId) {
                    assert(0 <= k < k + 1 && usage_writes_at(usages@, k as int, r as ResourceId));
                }
            }
            k = k + 1;
        }
        let id = self.nodes.len();
        let ghost old_nodes = self.nodes@;
        let ghost us = usages@;
        self.nodes.push(NodeDecl { name, usages });
        proof {
            assert(self.nodes@.drop_last() =~= old_nodes);
            assert(self.nodes@.last().usages@ == us);
            assert forall|r: int| 0 <= r < n_resources implies #[trigger] self.pending_writes@[r]
                == written_unread(self.nodes@, r as ResourceId) by {
                let rr = r as ResourceId;
                assert(prefix_writes(us, us.len() as int, rr) == list_writes(us, rr));
                assert(prefix_reads(us, us.len() as int, rr) == list_reads(us, rr));
                assert(old_pending[r] == written_unread(nodes0, rr));
                assert(mid_pending[r] == if list_reads(us, rr) { false } else { old_pending[r] });
                assert(self.pending_writes@[r] == if list_writes(us, rr) { true } else { mid_pending[r] });
                assert(written_unread(self.nodes@, rr) == if list_writes(us, rr) { true } else if list_reads(us, rr) { false } else { written_unread(old_nodes, rr) });
            }
            assert forall|a: int, k: int|
                0 <= a < self.nodes@.len() && 0 <= k < self.nodes@[a].usages@.len() implies (
                #[trigger] self.nodes@[a].usages@[k]).resource < self.resources@.len() by {
                if a < old_nodes.len() {
                    assert(self.nodes@[a] == old_nodes[a]);
                } else {
                    assert(self.nodes@[a].usages@ == us);
                }
            }
        }
        Ok(id)
    }

    /// Declares that external resource `external` receives its final contents as a copy of
    /// `source`. Fails when either resource is unknown, when `external` is not external, or
    /// when `external` already has a source (ambiguous order).
    #[verifier::loop_isolation(false)]
    pub fn write_external_image(&mut self, external: ResourceId, source: ResourceId) -> (r: Result<
        (),
        GraphError,
    >)
        requires
            old(self).wf(),
        ensures
            final(self).wf(),
            final(self).resources@ == old(self).resources@,
            final(self).nodes@ == old(self).nodes@,
            external >= old(self).resources@.len() || source >= old(self).resources@.len() ==> r
                == Err::<(), GraphError>(GraphError::UnknownResource) && final(self).outputs@
                == old(self).outputs@,
            external < old(self).resources@.len() && source < old(self).resources@.len()
                && old(self).resources@[external as int].external.is_none() ==> r == Err::<
                (),
                GraphError,
            >(GraphError::NotExternal) && final(self).outputs@ == old(self).outputs@,
            external < old(self).resources@.len() && source < old(self).resources@.len()
                && old(self).resources@[external as int].external.is_some() && (exists|i: int|
                0 <= i < old(self).outputs@.len() && (#[trigger] old(self).outputs@[i]).external
                    == external) ==> r == Err::<(), GraphError>(GraphError::AmbiguousWriteOrder)
                && final(self).outputs@ == old(self).outputs@,
            external < old(self).resources@.len() && source < old(self).resources@.len()
                && old(self).resources@[external as int].external.is_some() && !(exists|i: int|
                0 <= i < old(self).outputs@.len() && (#[trigger] old(self).outputs@[i]).external
                    == external) ==> r == Ok::<(), GraphError>(()) && final(self).outputs@ == old(
                self,
            ).outputs@.push(ExternalOutput { external, source }),
    {
        if external >= self.resources.len() || source >= self.resources.len() {
            return Err(GraphError::UnknownResource);
        }
        if self.resources[external].external.is_none() {
            return Err(GraphError::NotExternal);
        }
        let mut i: usize = 0;
        while i < self.outputs.len()
            invariant
                i <= self.outputs@.len(),
                forall|j: int| 0 <= j < i ==> (#[trigger] self.outputs@[j]).external != external,
            decreases self.outputs@.len() - i,
        {
            if self.outputs[i].external == external {
                return Err(GraphError::AmbiguousWriteOrder);
            }
            i = i + 1;
        }
        let o = ExternalOutput { external, source };
        let ghost old_outputs = self.outputs@;
        self.outputs.push(o);
        self.output_usages.push(NodeUsage { resource: source, access: AccessKind::Read, state: ResourceState::CopySrc });
        self.output_usages.push(NodeUsage { resource: external, access: AccessKind::Write, state: ResourceState::CopyDst });
        proof {
            assert(self.outputs@.drop_last() =~= old_outputs);
            assert(self.output_usages@ =~= outputs_usages(self.outputs@));
            assert forall|i: int, j: int|
                0 <= i < j < self.outputs@.len() implies (#[trigger] self.outputs@[i]).external
                    != (#[trigger] self.outputs@[j]).external by {
                if j < old_outputs.len() {
                    assert(old_outputs[i] == self.outputs@[i] && old_outputs[j] == self.outputs@[j]);
                } else {
                    assert(old_outputs[i] == self.outputs@[i]);
                }
            }
        }
        Ok(())
    }
}

/// A resource no usage of the new node touches keeps its pending-write flag.
proof fn lemma_written_unread_untouched(nodes: Seq<NodeDecl>, r: ResourceId)
    requires
        forall|a: int, k: int|
            0 <= a < nodes.len() && 0 <= k < nodes[a].usages@.len() ==> (
            #[trigger] nodes[a].usages@[k]).resource < r,
    ensures
        !written_unread(nodes, r),
    decreases nodes.len(),
{
    if nodes.len() > 0 {
        let last = nodes.len() - 1;
        assert(!list_writes(nodes.last().usages@, r)) by {
            if exists|k: int| usage_writes_at(nodes.last().usages@, k, r) {
                let k = choose|k: int| usage_writes_at(nodes.last().usages@, k, r);
                assert(nodes[last].usages@[k].resource < r);
            }
        }
        assert forall|a: int, k: int|
            0 <= a < nodes.drop_last().len() && 0 <= k < nodes.drop_last()[a].usages@.len()
                implies (#[trigger] nodes.drop_last()[a].usages@[k]).resource < r by {
            assert(nodes.drop_last()[a] == nodes[a]);
        }
        lemma_written_unread_untouched(nodes.drop_last(), r);
    }
}

} // verus!
