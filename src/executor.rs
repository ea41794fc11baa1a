//! The executor: turns a compiled plan into command buffers, one per step, and walks them
//! while a backend performs them, aborting the frame on the first failure.
use crate::barrier::{Barrier, PlannedAccess, accessed_before};
use crate::graph::{ExternalOutput, NodeId};
use crate::graph::RenderGraphBuilder;
use crate::aliasing::{alloc_through, pinned};
use crate::barrier::accesses_through;
use crate::lifetime::step_usages;
use crate::plan::{compiles_to, ExecutionPlan};
use crate::schedule::schedule_order;
use vstd::prelude::*;

verus! {

/// One instruction for the backend.
#[derive(Clone, Copy, Debug, PartialEq, Eq, Structural)]
pub enum Command {
    /// Allocate a transient physical resource, or look up an external one, at its first use.
    Realize(usize),
    /// Record a barrier.
    Transition(Barrier),
    /// Invoke the callback of a node with its bound resources.
    RunNode(NodeId),
    /// Copy a resource into an external image.
    CopyToExternal(ExternalOutput),
}

/// The commands of one step of the plan.
pub struct CommandBuffer {
    pub step: usize,
    pub commands: Vec<Command>,
}

/// The realizations among the first `i` accesses that belong to step `p`: one for each
/// access that is the first to its physical resource.
pub open spec fn realize_cmds(acc: Seq<PlannedAccess>, p: int, i: nat) -> Seq<Command>
    decreases i,
{
    if i == 0 {
        seq![]
    } else {
        let prev = realize_cmds(acc, p, (i - 1) as nat);
        let a = acc[i - 1];
        if a.step == p && !accessed_before(acc, i - 1, a.physical as int) {
            prev.push(Command::Realize(a.physical))
        } else {
            prev
        }
    }
}

/// The barriers among the first `i` accesses that belong to step `p`.
pub open spec fn transition_cmds(
    acc: Seq<PlannedAccess>,
    barriers: Seq<Option<Barrier>>,
    p: int,
    i: nat,
) -> Seq<Command>
    decreases i,
{
    if i == 0 {
        seq![]
    } else {
        let prev = transition_cmds(acc, barriers, p, (i - 1) as nat);
        if acc[i - 1].step == p && barriers[i - 1] is Some {
            prev.push(Command::Transition(barriers[i - 1]->0))
        } else {
            prev
        }
    }
}

/// The commands of step `p`: realizations, then barriers, then the node (or, at the last
/// step, the output copies and the exit barriers).
pub open spec fn step_commands(plan: ExecutionPlan, p: int) -> Seq<Command> {
    let acc = plan.accesses@;
    realize_cmds(acc, p, acc.len()) + transition_cmds(acc, plan.barriers@, p, acc.len()) + if p
        < plan.order@.len() {
        seq![Command::RunNode(plan.order@[p])]
    } else {
        plan.outputs@.map_values(|o: ExternalOutput| Command::CopyToExternal(o))
            + plan.exit_barriers@.map_values(|b: Barrier| Command::Transition(b))
    }
}

/// The number of command buffers of a plan: one per node, and one for the last step when
/// it has any command.
pub open spec fn n_buffers(plan: ExecutionPlan) -> nat {
    plan.order@.len() + if step_commands(plan, plan.order@.len() as int).len() > 0 {
        1nat
    } else {
        0nat
    }
}

fn step_commands_exec(plan: &ExecutionPlan, p: usize) -> (r: Vec<Command>)
    requires
        plan.barriers@.len() == plan.accesses@.len(),
        p <= plan.order@.len(),
        forall|i: int| 0 <= i < plan.accesses@.len() ==> (#[trigger] plan.accesses@[i]).physical < plan.physical@.len(),
    ensures
        r@ == step_commands(*plan, p as int),
{
    let acc = &plan.accesses;
    let n_phys = plan.physical.len();
    let mut touched: Vec<bool> = Vec::new();
    let mut s: usize = 0;
    while s < n_phys
        invariant
            s <= n_phys,
            touched@.len() == s,
            forall|x: int| 0 <= x < s ==> !(#[trigger] touched@[x]),
        decreases n_phys - s,
    {
        touched.push(false);
        s = s + 1;
    }
    let mut out: Vec<Command> = Vec::new();
    let mut i: usize = 0;
    while i < acc.len()
        invariant
            n_phys == plan.physical@.len(),
            acc == &plan.accesses,
            forall|i: int| 0 <= i < acc@.len() ==> (#[trigger] acc@[i]).physical < n_phys,
            i <= acc@.len(),
            touched@.len() == n_phys,
            forall|x: int| 0 <= x < n_phys ==> #[trigger] touched@[x] == accessed_before(acc@, i as int, x),
            out@ == realize_cmds(acc@, p as int, i as nat),
        decreases acc@.len() - i,
    {
        let a = acc[i];
        if a.step == p && !touched[a.physical] {
            out.push(Command::Realize(a.physical));
        }
        touched.set(a.physical, true);
        i = i + 1;
    }
    let ghost realized = out@;
    let mut i: usize = 0;
    while i < acc.len()
        invariant
            acc == &plan.accesses,
            plan.barriers@.len() == acc@.len(),
            i <= acc@.len(),
            out@ == realized + transition_cmds(acc@, plan.barriers@, p as int, i as nat),
        decreases acc@.len() - i,
    {
        if acc[i].step == p {
            if let Some(b) = plan.barriers[i] {
                out.push(Command::Transition(b));
            }
        }
        i = i + 1;
    }
    let ghost before_tail = out@;
    if p < plan.order.len() {
        out.push(Command::RunNode(plan.order[p]));
        assert(out@ =~= before_tail + seq![Command::RunNode(plan.order@[p as int])]);
    } else {
        let mut k: usize = 0;
        while k < plan.outputs.len()
            invariant
                k <= plan.outputs@.len(),
                out@ == before_tail + plan.outputs@.take(k as int).map_values(|o: ExternalOutput| Command::CopyToExternal(o)),
            decreases plan.outputs@.len() - k,
        {
            out.push(Command::CopyToExternal(plan.outputs[k]));
            assert(plan.outputs@.take(k + 1).map_values(|o: ExternalOutput| Command::CopyToExternal(o))
                =~= plan.outputs@.take(k as int).map_values(|o: ExternalOutput| Command::CopyToExternal(o)).push(Command::CopyToExternal(plan.outputs@[k as int])));
            k = k + 1;
        }
        assert(plan.outputs@.take(plan.outputs@.len() as int) =~= plan.outputs@);
        let ghost with_copies = out@;
        let mut k: usize = 0;
        while k < plan.exit_barriers.len()
            invariant
                k <= plan.exit_barriers@.len(),
                out@ == with_copies + plan.exit_barriers@.take(k as int).map_values(|b: Barrier| Command::Transition(b)),
            decreases plan.exit_barriers@.len() - k,
        {
            out.push(Command::Transition(plan.exit_barriers[k]));
            assert(plan.exit_barriers@.take(k + 1).map_values(|b: Barrier| Command::Transition(b))
                =~= plan.exit_barriers@.take(k as int).map_values(|b: Barrier| Command::Transition(b)).push(Command::Transition(plan.exit_barriers@[k as int])));
            k = k + 1;
        }
        assert(plan.exit_barriers@.take(plan.exit_barriers@.len() as int) =~= plan.exit_barriers@);
        assert(out@ =~= before_tail + (plan.outputs@.map_values(|o: ExternalOutput| Command::CopyToExternal(o))
            + plan.exit_barriers@.map_values(|b: Barrier| Command::Transition(b))));
    }
    out
}

/// Records the command buffers of a plan, in submission order: one per node, then one for
/// the last step when it has any command.
pub fn record_command_buffers(plan: &ExecutionPlan) -> (r: Vec<CommandBuffer>)
    requires
        plan.barriers@.len() == plan.accesses@.len(),
        plan.order@.len() < usize::MAX,
        forall|i: int| 0 <= i < plan.accesses@.len() ==> (#[trigger] plan.accesses@[i]).physical < plan.physical@.len(),
    ensures
        r@.len() == n_buffers(*plan),
        forall|p: int| 0 <= p < r@.len() ==> (#[trigger] r@[p]).step == p && r@[p].commands@ == step_commands(*plan, p),
{
    let n = plan.order.len();
    let mut out: Vec<CommandBuffer> = Vec::new();
    let mut p: usize = 0;
    while p <= n
        invariant
            n == plan.order@.len(),
            n < usize::MAX,
            plan.barriers@.len() == plan.accesses@.len(),
            forall|i: int| 0 <= i < plan.accesses@.len() ==> (#[trigger] plan.accesses@[i]).physical < plan.physical@.len(),
            p <= n + 1,
            p <= n ==> out@.len() == p,
            p == n + 1 ==> out@.len() == n_buffers(*plan),
            forall|q: int| 0 <= q < out@.len() ==> (#[trigger] out@[q]).step == q && out@[q].commands@ == step_commands(*plan, q),
        decreases n + 1 - p,
    {
        let commands = step_commands_exec(plan, p);
        if p < n || commands.len() > 0 {
            out.push(CommandBuffer { step: p, commands });
        }
        p = p + 1;
    }
    out
}

/// A failure while executing a frame.
#[derive(Clone, Copy, Debug, PartialEq, Eq, Structural)]
pub enum ExecutionError {
    /// The backend could not allocate a physical resource.
    ResourceAllocation,
    /// A node's callback failed.
    NodeExecution,
    /// The frame was finished before all of its command buffers were executed.
    Incomplete,
}

/// Where the execution of a frame stands.
#[derive(Clone, Copy, Debug, PartialEq, Eq, Structural)]
pub enum ExecutionStatus {
    Running,
    Complete,
    Failed(ExecutionError),
}

/// Walks the command buffers of a frame in order while a backend performs them.
pub struct FrameExecutor {
    pub buffers: Vec<CommandBuffer>,
    /// The index of the next buffer to perform.
    pub next: usize,
    pub status: ExecutionStatus,
}

impl FrameExecutor {
    /// The next buffer is in range exactly while running.
    pub open spec fn wf(&self) -> bool {
        &&& self.next <= self.buffers@.len()
        &&& self.status == ExecutionStatus::Running ==> self.next < self.buffers.len()
        &&& self.status == ExecutionStatus::Complete ==> self.next == self.buffers@.len()
    }

    /// Starts the execution of a plan; a plan without command buffers is complete at once.
    pub fn new(plan: &ExecutionPlan) -> (e: Self)
        requires
            plan.barriers@.len() == plan.accesses@.len(),
            plan.order@.len() < usize::MAX,
            forall|i: int| 0 <= i < plan.accesses@.len() ==> (#[trigger] plan.accesses@[i]).physical < plan.physical@.len(),
        ensures
            e.wf(),
            e.next == 0,
            e.buffers@.len() == n_buffers(*plan),
            forall|p: int| 0 <= p < e.buffers@.len() ==> (#[trigger] e.buffers@[p]).step == p && e.buffers@[p].commands@ == step_commands(*plan, p),
            e.status == if n_buffers(*plan) == 0 { ExecutionStatus::Complete } else { ExecutionStatus::Running },
    {
        let buffers = record_command_buffers(plan);
        let status = if buffers.len() == 0 {
            ExecutionStatus::Complete
        } else {
            ExecutionStatus::Running
        };
        FrameExecutor { buffers, next: 0, status }
    }

    /// The buffer the backend is to perform next, while running.
    pub fn current(&self) -> (r: Option<&CommandBuffer>)
        requires
            self.wf(),
        ensures
            self.status == ExecutionStatus::Running ==> r == Some(&self.buffers@[self.next as int]),
            self.status != ExecutionStatus::Running ==> r is None,
    {
        if self.status == ExecutionStatus::Running {
            Some(&self.buffers[self.next])
        } else {
            None
        }
    }

    /// Takes the outcome of performing the current buffer: on success moves to the next
    /// buffer (completing after the last), on failure aborts the frame.
    pub fn report(&mut self, outcome: Result<(), ExecutionError>)
        requires
            old(self).wf(),
        ensures
            final(self).wf(),
            final(self).buffers@ == old(self).buffers@,
            old(self).status != ExecutionStatus::Running ==> *final(self) == *old(self),
            old(self).status == ExecutionStatus::Running && outcome is Err ==> final(self).status
                == ExecutionStatus::Failed(outcome->Err_0) && final(self).next == old(self).next,
            old(self).status == ExecutionStatus::Running && outcome is Ok ==> final(self).next
                == old(self).next + 1 && final(self).status == if old(self).next + 1 == old(
                self,
            ).buffers@.len() {
                ExecutionStatus::Complete
            } else {
                ExecutionStatus::Running
            },
    {
        if !matches!(self.status, ExecutionStatus::Running) {
            return;
        }
        match outcome {
            Err(e) => {
                self.status = ExecutionStatus::Failed(e);
            },
            Ok(()) => {
                self.next = self.next + 1;
                if self.next == self.buffers.len() {
                    self.status = ExecutionStatus::Complete;
                }
            },
        }
    }

    /// Hands over the command buffers of a complete frame, or the error that aborted it;
    /// never part of a frame.
    pub fn finish(self) -> (r: Result<Vec<CommandBuffer>, ExecutionError>)
        ensures
            self.status == ExecutionStatus::Complete ==> r is Ok && r->Ok_0@ == self.buffers@,
            self.status matches ExecutionStatus::Failed(e) ==> r == Err::<Vec<CommandBuffer>, ExecutionError>(e),
            self.status == ExecutionStatus::Running ==> r == Err::<Vec<CommandBuffer>, ExecutionError>(ExecutionError::Incomplete),
    {
        match self.status {
            ExecutionStatus::Complete => Ok(self.buffers),
            ExecutionStatus::Failed(e) => Err(e),
            ExecutionStatus::Running => Err(ExecutionError::Incomplete),
        }
    }
}

/// Compiling a graph with no nodes and no resources cannot fail, and gives an empty plan
/// with no command buffers.
pub proof fn lemma_empty_graph(g: RenderGraphBuilder, plan: ExecutionPlan)
    requires
        g.wf(),
        g.nodes@.len() == 0,
        g.resources@.len() == 0,
        compiles_to(g, plan),
    ensures
        schedule_order(g.nodes@).len() == g.nodes@.len(),
        plan.order@.len() == 0,
        plan.physical@.len() == 0,
        plan.accesses@.len() == 0,
        plan.barriers@.len() == 0,
        plan.exit_barriers@.len() == 0,
        n_buffers(plan) == 0,
{
    if g.outputs@.len() > 0 {
        assert(g.outputs@[0].external < g.resources@.len());
    }
    assert(g.output_usages@ =~= Seq::<crate::graph::NodeUsage>::empty());
    assert(plan.order@.len() == 0);
    assert(step_usages(g.nodes@, g.output_usages@, plan.order@, 0) == g.output_usages@);
    assert(accesses_through(g.nodes@, g.output_usages@, plan.order@, plan.assignment@, 0) =~= Seq::<PlannedAccess>::empty());
    assert(accesses_through(g.nodes@, g.output_usages@, plan.order@, plan.assignment@, 1) =~= Seq::<PlannedAccess>::empty());
    assert(plan.accesses@ =~= Seq::<PlannedAccess>::empty());
    assert(plan.outputs@.len() == 0);
    let ivs = plan.lifetimes@;
    assert(alloc_through(g.resources@, ivs, 1, 0) == alloc_through(g.resources@, ivs, 0, 0));
    assert(pinned(g.resources@, 0).slots.len() == 0);
    assert(plan.physical@.len() == 0);
    assert(plan.exit_barriers@.len() == 0);
    assert(realize_cmds(plan.accesses@, 0, 0).len() == 0);
    assert(transition_cmds(plan.accesses@, plan.barriers@, 0, 0).len() == 0);
    assert(step_commands(plan, 0) =~= Seq::<Command>::empty());
}

} // verus!
