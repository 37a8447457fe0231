//! Recursive task interpreter: a registry of composable behaviour trees,
//! keyed by worker name, each advanced by exactly one step per tick.
//!
//! Stepping a task needs the host: the active leaf of the tree issues one
//! or two orders and the host reports an outcome code for each. The caller
//! asks [`Task::active_leaf`] what the tick's leaf is, performs its orders,
//! and hands the outcomes back as [`LeafEvents`]; everything the registry
//! then decides — the tri-state progress signal, queue consumption,
//! eviction — is computed and verified here.

use vstd::prelude::*;
use vstd::string::StringExecFns;

use std::collections::VecDeque;

use crate::codes::Direction;
use crate::codes::ReturnCode;
use crate::world::EntityId;

verus! {

/// Tri-state progress signal of one task step.
#[derive(Clone, Copy, PartialEq, Eq, Structural, Debug)]
pub enum TaskReturn {
    /// The task is done and may be evicted.
    Complete,
    /// The task advanced and wants to run again next tick.
    ProgressMade,
    /// The host reported an unexpected outcome; the task is retried next
    /// tick against fresh world state.
    Failed(ReturnCode),
}

/// A composable behaviour tree bound to one worker name inside the
/// registry.
pub enum Task {
    /// Walk one step in a direction.
    Move(Direction),
    /// Pull the named worker along while walking one step in a direction.
    Tow(String, Direction),
    /// Extract from the resource node with the given id.
    Harvest(EntityId),
    /// Re-arm the inner task every tick: its completion is reported as
    /// progress, so it never finishes on its own.
    Continuous(Box<Task>),
    /// Run the inner task for effect only and always report progress.
    Perpetual(Box<Task>),
    /// Run the queued tasks strictly front to back, discarding each one
    /// as it completes.
    MultiStep(VecDeque<Box<Task>>),
}

/// The active leaf a task will run this tick: the front-most leaf of the
/// tree, or none when an empty queue completes immediately.
pub enum LeafInfo {
    /// No order is issued this tick; the task completes by itself.
    NoLeaf,
    MoveLeaf(Direction),
    TowLeaf(String, Direction),
    HarvestLeaf(EntityId),
}

/// The host outcomes for one leaf step, as the caller gathered them.
pub enum LeafEvents {
    /// Outcome of the single order a `Move` or `Harvest` leaf issues.
    Single(ReturnCode),
    /// The tow target is absent from the world; no order was issued.
    TowMissing,
    /// Outcomes of the two halves of the tow link (pull, accept-pull), of
    /// which at least one is not `Okay`. Both halves succeeding is handled
    /// by `TowMoved`; a caller reporting `TowLink(Okay, Okay)` would
    /// violate the protocol.
    TowLink(ReturnCode, ReturnCode),
    /// Both halves of the tow link returned `Okay`, so the move order was
    /// issued; its outcome.
    TowMoved(ReturnCode),
}

/// The leaf a task runs this tick, found by descending through wrappers
/// and the front of each queue.
pub open spec fn spec_leaf_info(t: Task) -> LeafInfo
    decreases t,
{
    match t {
        Task::Move(d) => LeafInfo::MoveLeaf(d),
        Task::Tow(name, d) => LeafInfo::TowLeaf(name, d),
        Task::Harvest(id) => LeafInfo::HarvestLeaf(id),
        Task::Continuous(inner) => spec_leaf_info(*inner),
        Task::Perpetual(inner) => spec_leaf_info(*inner),
        Task::MultiStep(q) => if q@.len() == 0 {
            LeafInfo::NoLeaf
        } else {
            spec_leaf_info(*q@[0])
        },
    }
}

/// Which events a leaf can produce. `TowLink(Okay, Okay)` is the
/// combination the protocol declares impossible: both link halves
/// succeeding means the move order was issued, i.e. `TowMoved`.
pub open spec fn spec_events_match(leaf: LeafInfo, ev: LeafEvents) -> bool {
    match leaf {
        LeafInfo::NoLeaf => true,
        LeafInfo::MoveLeaf(_) => ev is Single,
        LeafInfo::HarvestLeaf(_) => ev is Single,
        LeafInfo::TowLeaf(_, _) => match ev {
            LeafEvents::Single(_) => false,
            LeafEvents::TowMissing => true,
            LeafEvents::TowLink(c1, c2) => !(c1 == ReturnCode::Okay && c2 == ReturnCode::Okay),
            LeafEvents::TowMoved(_) => true,
        },
    }
}

/// The events fit the task's active leaf.
pub open spec fn spec_ev_ok(t: Task, ev: LeafEvents) -> bool {
    spec_events_match(spec_leaf_info(t), ev)
}

/// What a leaf reports for the given host outcomes: success of the whole
/// order chain is `Complete`, anything else surfaces the first failing
/// code; a missing tow target is an `InvalidTarget` failure.
pub open spec fn spec_leaf_result(ev: LeafEvents) -> TaskReturn {
    match ev {
        LeafEvents::Single(c) => if c == ReturnCode::Okay {
            TaskReturn::Complete
        } else {
            TaskReturn::Failed(c)
        },
        LeafEvents::TowMissing => TaskReturn::Failed(ReturnCode::InvalidTarget),
        LeafEvents::TowLink(c1, c2) => if c1 != ReturnCode::Okay {
            TaskReturn::Failed(c1)
        } else {
            TaskReturn::Failed(c2)
        },
        LeafEvents::TowMoved(c) => if c == ReturnCode::Okay {
            TaskReturn::Complete
        } else {
            TaskReturn::Failed(c)
        },
    }
}

/// The progress signal one step of a task reports, given the host
/// outcomes of its active leaf.
pub open spec fn spec_step_result(t: Task, ev: LeafEvents) -> TaskReturn
    decreases t,
{
    match t {
        Task::Move(_) => spec_leaf_result(ev),
        Task::Tow(_, _) => spec_leaf_result(ev),
        Task::Harvest(_) => spec_leaf_result(ev),
        Task::Continuous(inner) => {
            let r = spec_step_result(*inner, ev);
            if r == TaskReturn::Complete {
                TaskReturn::ProgressMade
            } else {
                r
            }
        },
        Task::Perpetual(_) => TaskReturn::ProgressMade,
        Task::MultiStep(q) => if q@.len() == 0 {
            TaskReturn::Complete
        } else {
            let r = spec_step_result(*q@[0], ev);
            if r == TaskReturn::Complete {
                if q@.len() == 1 {
                    TaskReturn::Complete
                } else {
                    TaskReturn::ProgressMade
                }
            } else {
                r
            }
        },
    }
}

/// How one step rewrites the task tree: leaves are unchanged, wrappers
/// step their inner task in place, and a queue discards its front entry
/// permanently when that entry completes.
pub open spec fn spec_step_post(pre: Task, ev: LeafEvents, post: Task) -> bool
    decreases pre,
{
    match pre {
        Task::Move(_) => post == pre,
        Task::Tow(_, _) => post == pre,
        Task::Harvest(_) => post == pre,
        Task::Continuous(inner) => post matches Task::Continuous(pi) && spec_step_post(
            *inner,
            ev,
            *pi,
        ),
        Task::Perpetual(inner) => post matches Task::Perpetual(pi) && spec_step_post(
            *inner,
            ev,
            *pi,
        ),
        Task::MultiStep(q) => if q@.len() == 0 {
            post matches Task::MultiStep(q2) && q2@ == q@
        } else {
            post matches Task::MultiStep(q2) && {
                if spec_step_result(*q@[0], ev) == TaskReturn::Complete {
                    q2@ == q@.drop_first()
                } else {
                    &&& q2@.len() == q@.len()
                    &&& (forall|k: int| 1 <= k < q@.len() ==> q2@[k] == q@[k])
                    &&& spec_step_post(*q@[0], ev, *q2@[0])
                }
            }
        },
    }
}

impl Task {
    /// The leaf that acts this tick; the caller issues its orders and
    /// gathers the outcomes.
    pub fn active_leaf(&self) -> (r: LeafInfo)
        ensures
            r == spec_leaf_info(*self),
        decreases *self,
    {
        match self {
            Task::Move(d) => LeafInfo::MoveLeaf(*d),
            Task::Tow(name, d) => LeafInfo::TowLeaf(name.clone(), *d),
            Task::Harvest(id) => LeafInfo::HarvestLeaf(*id),
            Task::Continuous(inner) => inner.active_leaf(),
            Task::Perpetual(inner) => inner.active_leaf(),
            Task::MultiStep(q) => if q.len() == 0 {
                LeafInfo::NoLeaf
            } else {
                q[0].active_leaf()
            },
        }
    }

    /// Advances the task by exactly one step, given the host outcomes of
    /// its active leaf, and reports the tri-state progress signal.
    pub fn run(&mut self, ev: &LeafEvents) -> (r: TaskReturn)
        requires
            spec_ev_ok(*old(self), *ev),
        ensures
            r == spec_step_result(*old(self), *ev),
            spec_step_post(*old(self), *ev, *final(self)),
    {
        let mut taken = Task::Move(Direction::Top);
        core::mem::swap(self, &mut taken);
        let (stepped, r) = step_owned(taken, ev);
        *self = stepped;
        r
    }
}

/// One step of a task by value: returns the rewritten tree and the
/// progress signal.
fn step_owned(t: Task, ev: &LeafEvents) -> (res: (Task, TaskReturn))
    requires
        spec_ev_ok(t, *ev),
    ensures
        res.1 == spec_step_result(t, *ev),
        spec_step_post(t, *ev, res.0),
    decreases t,
{
    match t {
        Task::Continuous(inner) => {
            let (stepped, r0) = step_owned(*inner, ev);
            let r = if r0 == TaskReturn::Complete {
                TaskReturn::ProgressMade
            } else {
                r0
            };
            (Task::Continuous(Box::new(stepped)), r)
        },
        Task::Perpetual(inner) => {
            let (stepped, _r0) = step_owned(*inner, ev);
            (Task::Perpetual(Box::new(stepped)), TaskReturn::ProgressMade)
        },
        Task::MultiStep(mut q) => {
            let front_opt = q.pop_front();
            match front_opt {
                None => (Task::MultiStep(q), TaskReturn::Complete),
                Some(front) => {
                    let (stepped, r0) = step_owned(*front, ev);
                    if r0 == TaskReturn::Complete {
                        let r = if q.len() != 0 {
                            TaskReturn::ProgressMade
                        } else {
                            TaskReturn::Complete
                        };
                        (Task::MultiStep(q), r)
                    } else {
                        q.push_front(Box::new(stepped));
                        (Task::MultiStep(q), r0)
                    }
                },
            }
        },
        leaf => {
            let r = leaf_result(ev);
            (leaf, r)
        },
    }
}

/// Whether the given events fit the given leaf, for a caller to check
/// before stepping.
pub fn events_match(leaf: &LeafInfo, ev: &LeafEvents) -> (r: bool)
    ensures
        r == spec_events_match(*leaf, *ev),
{
    match leaf {
        LeafInfo::NoLeaf => true,
        LeafInfo::MoveLeaf(_) => matches!(ev, LeafEvents::Single(_)),
        LeafInfo::HarvestLeaf(_) => matches!(ev, LeafEvents::Single(_)),
        LeafInfo::TowLeaf(_, _) => match ev {
            LeafEvents::Single(_) => false,
            LeafEvents::TowMissing => true,
            LeafEvents::TowLink(c1, c2) => !(*c1 == ReturnCode::Okay && *c2 == ReturnCode::Okay),
            LeafEvents::TowMoved(_) => true,
        },
    }
}

fn leaf_result(ev: &LeafEvents) -> (r: TaskReturn)
    ensures
        r == spec_leaf_result(*ev),
{
    match ev {
        LeafEvents::Single(c) => if *c == ReturnCode::Okay {
            TaskReturn::Complete
        } else {
            TaskReturn::Failed(*c)
        },
        LeafEvents::TowMissing => TaskReturn::Failed(ReturnCode::InvalidTarget),
        LeafEvents::TowLink(c1, c2) => if *c1 != ReturnCode::Okay {
            TaskReturn::Failed(*c1)
        } else {
            TaskReturn::Failed(*c2)
        },
        LeafEvents::TowMoved(c) => if *c == ReturnCode::Okay {
            TaskReturn::Complete
        } else {
            TaskReturn::Failed(*c)
        },
    }
}

/// The host answers for one registry entry during a sweep: whether the
/// entry's worker is present in the world at all, and if so, the outcomes
/// of the orders its active leaf issued.
pub struct SweepInput {
    pub present: bool,
    pub events: LeafEvents,
}

/// The sweep evicts an entry that completed or whose worker disappeared
/// from the world; an entry that made progress or failed is kept — errors
/// are not fatal to the registration, the same task is retried next tick
/// against fresh world state.
pub open spec fn spec_sweep_keep(t: Task, inp: SweepInput) -> bool {
    inp.present && spec_step_result(t, inp.events) != TaskReturn::Complete
}

/// How one sweep rewrites the registry: every entry is stepped (or found
/// orphaned), kept entries keep their name and their stepped task, in
/// order, and all others are gone.
pub open spec fn spec_sweep_post(
    pre: Seq<(String, Task)>,
    ins: Seq<SweepInput>,
    post: Seq<(String, Task)>,
) -> bool
    decreases pre.len(),
{
    if pre.len() != ins.len() {
        false
    } else if pre.len() == 0 {
        post.len() == 0
    } else if spec_sweep_keep(pre[0].1, ins[0]) {
        &&& post.len() >= 1
        &&& post[0].0 == pre[0].0
        &&& spec_step_post(pre[0].1, ins[0].events, post[0].1)
        &&& spec_sweep_post(pre.drop_first(), ins.drop_first(), post.drop_first())
    } else {
        spec_sweep_post(pre.drop_first(), ins.drop_first(), post)
    }
}

/// Persistent registry of behaviour trees, keyed by worker name. A worker
/// name present as a key is busy and must not be repurposed by the
/// allocation layer until the entry is evicted.
pub struct Tasks {
    pub task_list: Vec<(String, Task)>,
}

impl Tasks {
    /// Registry keys are unique worker names.
    pub open spec fn wf(self) -> bool {
        forall|i: int, j: int|
            0 <= i < j < self.task_list@.len() ==> self.task_list@[i].0@ != self.task_list@[j].0@
    }

    pub open spec fn spec_has_task(self, name: Seq<char>) -> bool {
        exists|i: int| 0 <= i < self.task_list@.len() && self.task_list@[i].0@ == name
    }

    pub fn new() -> (r: Self)
        ensures
            r.task_list@.len() == 0,
            r.wf(),
    {
        Self { task_list: Vec::new() }
    }

    /// Whether the named worker is committed to a registered task.
    pub fn has_task(&self, creep_name: &str) -> (r: bool)
        ensures
            r == self.spec_has_task(creep_name@),
    {
        let key = String::from_str(creep_name);
        let n = self.task_list.len();
        let mut i: usize = 0;
        while i < n
            invariant
                n == self.task_list@.len(),
                key@ == creep_name@,
                forall|k: int| 0 <= k < i ==> self.task_list@[k].0@ != creep_name@,
            decreases n - i,
        {
            if self.task_list[i].0.eq(&key) {
                return true;
            }
            i = i + 1;
        }
        false
    }

    /// Registers (or replaces) the task bound to the named worker.
    pub fn add_task(&mut self, creep_name: String, task: Task)
        requires
            old(self).wf(),
        ensures
            final(self).wf(),
            final(self).spec_has_task(creep_name@),
            old(self).spec_has_task(creep_name@) ==> {
                let pre = old(self).task_list@;
                let post = final(self).task_list@;
                &&& post.len() == pre.len()
                &&& forall|k: int|
                    0 <= k < pre.len() && pre[k].0@ != creep_name@ ==> post[k] == pre[k]
                &&& forall|k: int|
                    0 <= k < pre.len() && pre[k].0@ == creep_name@ ==> post[k].0 == creep_name
                        && post[k].1 == task
            },
            !old(self).spec_has_task(creep_name@) ==> final(self).task_list@ == old(
                self,
            ).task_list@.push((creep_name, task)),
    {
        let n = self.task_list.len();
        let mut i: usize = 0;
        while i < n
            invariant
                *self == *old(self),
                old(self).wf(),
                n == self.task_list@.len(),
                forall|k: int| 0 <= k < i ==> self.task_list@[k].0@ != creep_name@,
            decreases n - i,
        {
            if self.task_list[i].0.eq(&creep_name) {
                self.task_list[i] = (creep_name, task);
                proof {
                    assert(self.task_list@[i as int].0@ == creep_name@);
                }
                return ;
            }
            i = i + 1;
        }
        self.task_list.push((creep_name, task));
        proof {
            assert(self.task_list@[self.task_list@.len() - 1].0@ == creep_name@);
        }
    }

    /// Steps one task against the world: an absent worker fails with
    /// `NotFound` and the task is untouched; otherwise the task advances
    /// by one step.
    pub fn run_task(present: bool, task: &mut Task, events: &LeafEvents) -> (r: TaskReturn)
        requires
            present ==> spec_ev_ok(*old(task), *events),
        ensures
            !present ==> r == TaskReturn::Failed(ReturnCode::NotFound) && *final(task) == *old(
                task,
            ),
            present ==> r == spec_step_result(*old(task), *events) && spec_step_post(
                *old(task),
                *events,
                *final(task),
            ),
    {
        if present {
            task.run(events)
        } else {
            TaskReturn::Failed(ReturnCode::NotFound)
        }
    }

    /// One registry sweep: steps every entry against the host answers the
    /// caller gathered (in registry order) and evicts every entry that
    /// reported `Complete` or whose worker is absent from the world.
    /// Entries that made progress or failed stay registered and are
    /// retried next tick.
    pub fn run(&mut self, inputs: &Vec<SweepInput>)
        requires
            old(self).wf(),
            inputs@.len() == old(self).task_list@.len(),
            forall|i: int|
                0 <= i < inputs@.len() && inputs@[i].present ==> spec_ev_ok(
                    #[trigger] old(self).task_list@[i].1,
                    inputs@[i].events,
                ),
        ensures
            final(self).wf(),
            spec_sweep_post(old(self).task_list@, inputs@, final(self).task_list@),
    {
        let n = self.task_list.len();
        let mut pending: Vec<(String, Task)> = Vec::new();
        core::mem::swap(&mut pending, &mut self.task_list);
        let ghost pre = pending@;
        let mut kept: Vec<(String, Task)> = Vec::new();
        let mut i: usize = 0;
        while i < n
            invariant
                pre.len() == n,
                inputs@.len() == n,
                0 <= i <= n,
                pending@ == pre.skip(i as int),
                spec_sweep_post(pre.take(i as int), inputs@.take(i as int), kept@),
                forall|a: int, b: int| 0 <= a < b < pre.len() ==> pre[a].0@ != pre[b].0@,
                forall|k: int|
                    0 <= k < inputs@.len() && inputs@[k].present ==> spec_ev_ok(
                        #[trigger] pre[k].1,
                        inputs@[k].events,
                    ),
                forall|a: int|
                    0 <= a < kept@.len() ==> exists|j: int|
                        0 <= j < i && #[trigger] kept@[a].0 == #[trigger] pre[j].0,
                forall|a: int, b: int| 0 <= a < b < kept@.len() ==> kept@[a].0@ != kept@[b].0@,
            decreases n - i,
        {
            let entry = pending.remove(0);
            let (name, mut task) = entry;
            let present = inputs[i].present;
            let mut keep = false;
            if present {
                let r = task.run(&inputs[i].events);
                keep = r != TaskReturn::Complete;
            }
            proof {
                assert(pre.skip(i as int).remove(0) =~= pre.skip(i as int + 1));
                assert(pre.skip(i as int)[0] == pre[i as int]);
            }
            let ghost kept_pre = kept@;
            proof {
                let ghost cur = pre[i as int];
                assert forall|a: int| 0 <= a < kept_pre.len() implies kept_pre[a].0@ != cur.0@ by {
                    let j = choose|j: int| 0 <= j < i && kept_pre[a].0 == pre[j].0;
                    assert(pre[j].0@ != pre[i as int].0@);
                }
            }
            if keep {
                kept.push((name, task));
            }
            proof {
                lemma_sweep_post_snoc(
                    pre.take(i as int),
                    inputs@.take(i as int),
                    kept_pre,
                    pre[i as int],
                    inputs@[i as int],
                    kept@.last(),
                );
                assert(pre.take(i as int).push(pre[i as int]) =~= pre.take(i as int + 1));
                assert(inputs@.take(i as int).push(inputs@[i as int]) =~= inputs@.take(
                    i as int + 1,
                ));
                if spec_sweep_keep(pre[i as int].1, inputs@[i as int]) {
                    assert(kept_pre.push(kept@.last()) =~= kept@);
                }
            }
            i = i + 1;
        }
        proof {
            assert(pre.take(n as int) =~= pre);
            assert(inputs@.take(n as int) =~= inputs@);
        }
        self.task_list = kept;
    }
}

/// Extending a sweep by one entry at the back: the entry joins the kept
/// entries exactly when the sweep's keep-rule holds of it.
proof fn lemma_sweep_post_snoc(
    pre: Seq<(String, Task)>,
    ins: Seq<SweepInput>,
    post: Seq<(String, Task)>,
    e: (String, Task),
    inp: SweepInput,
    e2: (String, Task),
)
    requires
        spec_sweep_post(pre, ins, post),
        spec_sweep_keep(e.1, inp) ==> e2.0 == e.0 && spec_step_post(e.1, inp.events, e2.1),
    ensures
        spec_sweep_keep(e.1, inp) ==> spec_sweep_post(pre.push(e), ins.push(inp), post.push(e2)),
        !spec_sweep_keep(e.1, inp) ==> spec_sweep_post(pre.push(e), ins.push(inp), post),
    decreases pre.len(),
{
    if pre.len() == 0 {
        assert(pre.push(e).drop_first() =~= pre);
        assert(ins.push(inp).drop_first() =~= ins);
        assert(post.push(e2).drop_first() =~= post);
        assert(pre.push(e)[0] == e);
        assert(ins.push(inp)[0] == inp);
        if spec_sweep_keep(e.1, inp) {
            assert(post.push(e2)[0] == e2);
        }
    } else {
        if spec_sweep_keep(pre[0].1, ins[0]) {
            lemma_sweep_post_snoc(pre.drop_first(), ins.drop_first(), post.drop_first(), e, inp, e2);
        } else {
            lemma_sweep_post_snoc(pre.drop_first(), ins.drop_first(), post, e, inp, e2);
        }
        assert(pre.push(e).drop_first() =~= pre.drop_first().push(e));
        assert(ins.push(inp).drop_first() =~= ins.drop_first().push(inp));
        if spec_sweep_keep(pre[0].1, ins[0]) {
            assert(post.push(e2).drop_first() =~= post.drop_first().push(e2));
        }
        assert(pre.push(e)[0] == pre[0]);
        assert(ins.push(inp)[0] == ins[0]);
    }
}

/// Some entry of the list carries the given worker name.
pub open spec fn spec_list_has_name(s: Seq<(String, Task)>, name: Seq<char>) -> bool {
    exists|i: int| 0 <= i < s.len() && (#[trigger] s[i]).0@ == name
}

/// Every entry a sweep keeps comes from the old registry under its own
/// name.
pub proof fn lemma_sweep_names_from_pre(
    pre: Seq<(String, Task)>,
    ins: Seq<SweepInput>,
    post: Seq<(String, Task)>,
)
    requires
        spec_sweep_post(pre, ins, post),
    ensures
        forall|j: int|
            0 <= j < post.len() ==> spec_list_has_name(pre, (#[trigger] post[j]).0@),
    decreases pre.len(),
{
    if pre.len() == 0 {
    } else if spec_sweep_keep(pre[0].1, ins[0]) {
        lemma_sweep_names_from_pre(pre.drop_first(), ins.drop_first(), post.drop_first());
        assert forall|j: int| 0 <= j < post.len() implies spec_list_has_name(
            pre,
            (#[trigger] post[j]).0@,
        ) by {
            if j == 0 {
                assert(post[0].0 == pre[0].0);
                assert((pre[0]).0@ == post[0].0@);
            } else {
                let i0 = choose|i0: int|
                    0 <= i0 < pre.drop_first().len() && (#[trigger] pre.drop_first()[i0]).0@
                        == post.drop_first()[j - 1].0@;
                assert((pre[i0 + 1]).0@ == post[j].0@);
            }
        }
    } else {
        lemma_sweep_names_from_pre(pre.drop_first(), ins.drop_first(), post);
        assert forall|j: int| 0 <= j < post.len() implies spec_list_has_name(
            pre,
            (#[trigger] post[j]).0@,
        ) by {
            let i0 = choose|i0: int|
                0 <= i0 < pre.drop_first().len() && (#[trigger] pre.drop_first()[i0]).0@
                    == post[j].0@;
            assert((pre[i0 + 1]).0@ == post[j].0@);
        }
    }
}

/// A registry entry whose worker is absent from the world snapshot is
/// evicted by the sweep: no entry under that name survives, and the
/// removal is not an error of the sweep itself.
pub proof fn lemma_sweep_evicts_absent(
    pre: Seq<(String, Task)>,
    ins: Seq<SweepInput>,
    post: Seq<(String, Task)>,
    i: int,
)
    requires
        spec_sweep_post(pre, ins, post),
        0 <= i < pre.len(),
        !ins[i].present,
        forall|a: int, b: int| 0 <= a < b < pre.len() ==> pre[a].0@ != pre[b].0@,
    ensures
        forall|j: int| 0 <= j < post.len() ==> post[j].0@ != pre[i].0@,
    decreases pre.len(),
{
    if i == 0 {
        assert(!spec_sweep_keep(pre[0].1, ins[0]));
        lemma_sweep_names_from_pre(pre.drop_first(), ins.drop_first(), post);
        assert forall|j: int| 0 <= j < post.len() implies post[j].0@ != pre[0].0@ by {
            let k = choose|k: int|
                0 <= k < pre.drop_first().len() && (#[trigger] pre.drop_first()[k]).0@
                    == post[j].0@;
            assert(post[j].0@ == pre[k + 1].0@);
            assert(pre[0].0@ != pre[k + 1].0@);
        }
    } else {
        if spec_sweep_keep(pre[0].1, ins[0]) {
            lemma_sweep_evicts_absent(pre.drop_first(), ins.drop_first(), post.drop_first(), i - 1);
            assert forall|j: int| 0 <= j < post.len() implies post[j].0@ != pre[i].0@ by {
                if j == 0 {
                    assert(post[0].0 == pre[0].0);
                    assert(pre[0].0@ != pre[i].0@);
                } else {
                    assert(post.drop_first()[j - 1].0@ != pre.drop_first()[i - 1].0@);
                }
            }
        } else {
            lemma_sweep_evicts_absent(pre.drop_first(), ins.drop_first(), post, i - 1);
            assert forall|j: int| 0 <= j < post.len() implies post[j].0@ != pre[i].0@ by {
                assert(post[j].0@ != pre.drop_first()[i - 1].0@);
            }
        }
    }
}

/// A `Continuous` task never reports `Complete`: its inner task's
/// completion is re-armed as `ProgressMade`, so the registry sweep never
/// evicts it for succeeding.
pub proof fn lemma_continuous_never_complete(t: Task, ev: LeafEvents)
    requires
        t is Continuous,
    ensures
        spec_step_result(t, ev) != TaskReturn::Complete,
{
}

/// Stepping a `Continuous` leaf whose order succeeded reports
/// `ProgressMade` and leaves the task exactly as it was, however many
/// times this is repeated.
pub proof fn lemma_continuous_leaf_idempotent(t: Task, ev: LeafEvents, post: Task)
    requires
        t matches Task::Continuous(inner) && (*inner is Harvest || *inner is Move),
        ev matches LeafEvents::Single(c) && c == ReturnCode::Okay,
        spec_step_post(t, ev, post),
    ensures
        spec_step_result(t, ev) == TaskReturn::ProgressMade,
        post == t,
{
    match t {
        Task::Continuous(inner) => {
            assert(spec_step_result(*inner, ev) == TaskReturn::Complete);
            match post {
                Task::Continuous(pi) => {
                    assert(spec_step_post(*inner, ev, *pi));
                    assert(*pi == *inner);
                },
                _ => {
                    assert(false);
                },
            }
        },
        _ => {
            assert(false);
        },
    }
}

/// A `MultiStep` queue drains strictly front to back: an empty queue
/// completes immediately; when the front entry completes it is discarded
/// permanently, and the step reports `Complete` exactly when nothing
/// remains, `ProgressMade` otherwise.
pub proof fn lemma_multi_step_drains(q: VecDeque<Box<Task>>, ev: LeafEvents, post: Task)
    requires
        spec_step_post(Task::MultiStep(q), ev, post),
    ensures
        q@.len() == 0 ==> spec_step_result(Task::MultiStep(q), ev) == TaskReturn::Complete && (
        post matches Task::MultiStep(q2) && q2@ == q@),
        q@.len() > 0 && spec_step_result(*q@[0], ev) == TaskReturn::Complete ==> {
            &&& spec_step_result(Task::MultiStep(q), ev) == (if q@.len() == 1 {
                TaskReturn::Complete
            } else {
                TaskReturn::ProgressMade
            })
            &&& post matches Task::MultiStep(q2) && q2@ == q@.drop_first()
        },
{
}

} // verus!
