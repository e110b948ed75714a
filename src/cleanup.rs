//! The resumable operation that removes a task's outdated edges and then
//! drains the aggregation work that their removal caused.
use vstd::prelude::*;
use crate::aggregation::{
    data_update, data_update_jobs, dirty_effect, is_aggregating_node, make_task_dirty,
    AggregatedDataUpdate, AggregationUpdateJob, AggregationUpdateQueue, ContextView,
    ExecuteContext, JobView, AGGREGATING_NUMBER,
};
use crate::counts::{bump, bump_all};
use crate::ids::{CachedDataItemKey, CellRef, CollectibleRef, CollectiblesRef, CounterKey, TaskId};
use crate::store::{aggregation_number_of, uppers_of, StorageView};

verus! {

/// One stale edge of a task, slated for removal.
#[derive(Clone, Copy, Debug, PartialEq, Eq, Structural)]
pub enum OutdatedEdge {
    /// The task lost this child.
    Child(TaskId),
    /// The task no longer emits this many of the collectible.
    Collectible(CollectibleRef, i32),
    /// The task no longer reads this cell.
    CellDependency(CellRef),
    /// A dependency on what another task returns.
    OutputDependency(TaskId),
    /// The task no longer observes these aggregated collectibles.
    CollectiblesDependency(CollectiblesRef),
    /// This dependent task read a cell of the task that no longer exists.
    RemovedCellDependent(TaskId),
}

/// The ids of the `Child` edges of `s`, in order.
pub open spec fn child_ids(s: Seq<OutdatedEdge>) -> Seq<TaskId>
    decreases s.len(),
{
    if s.len() == 0 {
        Seq::empty()
    } else {
        match s.last() {
            OutdatedEdge::Child(id) => child_ids(s.drop_last()).push(id),
            _ => child_ids(s.drop_last()),
        }
    }
}

/// `s` without its `Child` edges.
pub open spec fn without_children(s: Seq<OutdatedEdge>) -> Seq<OutdatedEdge>
    decreases s.len(),
{
    if s.len() == 0 {
        Seq::empty()
    } else {
        match s.last() {
            OutdatedEdge::Child(_) => without_children(s.drop_last()),
            e => without_children(s.drop_last()).push(e),
        }
    }
}

/// The `Collectible` edges of `s`, in order, each with its count negated.
pub open spec fn collectible_deltas(s: Seq<OutdatedEdge>) -> Seq<(CollectibleRef, i64)>
    decreases s.len(),
{
    if s.len() == 0 {
        Seq::empty()
    } else {
        match s.last() {
            OutdatedEdge::Collectible(c, n) => collectible_deltas(s.drop_last()).push((c, -n as i64)),
            _ => collectible_deltas(s.drop_last()),
        }
    }
}

/// `s` without its `Collectible` edges.
pub open spec fn without_collectibles(s: Seq<OutdatedEdge>) -> Seq<OutdatedEdge>
    decreases s.len(),
{
    if s.len() == 0 {
        Seq::empty()
    } else {
        match s.last() {
            OutdatedEdge::Collectible(_, _) => without_collectibles(s.drop_last()),
            e => without_collectibles(s.drop_last()).push(e),
        }
    }
}

/// `items` without the `Child` items of task `t` for the ids in `ids`.
pub open spec fn remove_children(
    items: Set<(TaskId, CachedDataItemKey)>,
    t: TaskId,
    ids: Seq<TaskId>,
) -> Set<(TaskId, CachedDataItemKey)>
    decreases ids.len(),
{
    if ids.len() == 0 {
        items
    } else {
        remove_children(items, t, ids.drop_last()).remove((t, CachedDataItemKey::Child { task: ids.last() }))
    }
}

/// `counters` after applying each `(collectible, delta)` of `s` on task `t`.
pub open spec fn apply_counts(counters: Map<CounterKey, int>, t: TaskId, s: Seq<(CollectibleRef, i64)>) -> Map<CounterKey, int>
    decreases s.len(),
{
    if s.len() == 0 {
        counters
    } else {
        bump(apply_counts(counters, t, s.drop_last()), CounterKey { task: t, collectible: s.last().0 }, s.last().1 as int)
    }
}

/// The store items that represent the edge `e` of task `t`: the forward item on
/// `t` and the back item on the other end. Collectible and invalidation
/// entries are no stored edge.
pub open spec fn edge_items(t: TaskId, e: OutdatedEdge) -> Set<(TaskId, CachedDataItemKey)> {
    match e {
        OutdatedEdge::Child(c) => set![(t, CachedDataItemKey::Child { task: c })],
        OutdatedEdge::CellDependency(r) => set![
            (r.task, CachedDataItemKey::CellDependent { cell: r.cell, task: t }),
            (t, CachedDataItemKey::CellDependency { cell_ref: r }),
        ],
        OutdatedEdge::OutputDependency(o) => set![
            (o, CachedDataItemKey::OutputDependent { task: t }),
            (t, CachedDataItemKey::OutputDependency { output_task: o }),
        ],
        OutdatedEdge::CollectiblesDependency(r) => set![
            (r.task, CachedDataItemKey::CollectiblesDependent { collectible_type: r.collectible_type, task: t }),
            (t, CachedDataItemKey::CollectiblesDependency { collectibles_ref: r }),
        ],
        _ => Set::empty(),
    }
}

/// The uppers that receive the lost followers of task `t`: `t` itself when it
/// is an aggregating node, else its recorded uppers.
pub open spec fn lost_follower_uppers(s: StorageView, t: TaskId) -> Seq<TaskId> {
    if aggregation_number_of(s.aggregation_numbers, t) >= AGGREGATING_NUMBER {
        seq![t]
    } else {
        uppers_of(s.uppers, t)
    }
}

/// Removing the edge `e`, popped from the pending list of task `t` whose rest
/// is `rest`: the new rest, queue and context.
pub open spec fn remove_edge_batch(
    t: TaskId,
    e: OutdatedEdge,
    rest: Seq<OutdatedEdge>,
    queue: Seq<JobView>,
    ctx: ContextView,
) -> (Seq<OutdatedEdge>, Seq<JobView>, ContextView) {
    let s = ctx.storage;
    match e {
        OutdatedEdge::Child(c) => {
            let batch = seq![c] + child_ids(rest);
            (
                without_children(rest),
                queue.push(JobView::InnerLostFollowers {
                    upper_ids: lost_follower_uppers(s, t),
                    lost_follower_ids: batch,
                }),
                ContextView { storage: StorageView { items: remove_children(s.items, t, batch), ..s }, ..ctx },
            )
        },
        OutdatedEdge::Collectible(c, n) => {
            let batch = seq![(c, -n as i64)] + collectible_deltas(rest);
            (
                without_collectibles(rest),
                queue + data_update_jobs(s.uppers, t, bump_all(Map::empty(), batch)),
                ContextView { storage: StorageView { counters: apply_counts(s.counters, t, batch), ..s }, ..ctx },
            )
        },
        OutdatedEdge::RemovedCellDependent(d) => {
            let r = dirty_effect(d, queue, ctx);
            (rest, r.0, r.1)
        },
        _ => (
            rest,
            queue,
            ContextView { storage: StorageView { items: s.items.difference(edge_items(t, e)), ..s }, ..ctx },
        ),
    }
}


/// The operation: its state carries everything needed to resume it.
#[derive(Clone)]
pub enum CleanupOldEdgesOperation {
    /// Removing the pending outdated edges of `task_id`.
    RemoveEdges { task_id: TaskId, outdated: Vec<OutdatedEdge>, queue: AggregationUpdateQueue },
    /// Draining the follow-up jobs.
    AggregationUpdate { queue: AggregationUpdateQueue },
    /// Finished.
    Done,
}

pub ghost enum OperationView {
    RemoveEdges { task_id: TaskId, outdated: Seq<OutdatedEdge>, queue: Seq<JobView> },
    AggregationUpdate { queue: Seq<JobView> },
    Done,
}

impl CleanupOldEdgesOperation {
    pub open spec fn view(&self) -> OperationView {
        match self {
            CleanupOldEdgesOperation::RemoveEdges { task_id, outdated, queue } =>
                OperationView::RemoveEdges { task_id: *task_id, outdated: outdated@, queue: queue@ },
            CleanupOldEdgesOperation::AggregationUpdate { queue } => OperationView::AggregationUpdate { queue: queue@ },
            CleanupOldEdgesOperation::Done => OperationView::Done,
        }
    }
}

impl Default for CleanupOldEdgesOperation {
    fn default() -> (r: Self)
        ensures
            r@ == OperationView::Done,
    {
        CleanupOldEdgesOperation::Done
    }
}

/// One unit of work: removing one batch of edges, moving on to the drain,
/// one bounded drain step, or nothing once done.
pub open spec fn step_spec(op: OperationView, ctx: ContextView) -> (OperationView, ContextView) {
    match op {
        OperationView::RemoveEdges { task_id, outdated, queue } => {
            if outdated.len() == 0 {
                (OperationView::AggregationUpdate { queue }, ctx)
            } else {
                let r = remove_edge_batch(task_id, outdated.last(), outdated.drop_last(), queue, ctx);
                if r.0.len() == 0 {
                    (OperationView::AggregationUpdate { queue: r.1 }, r.2)
                } else {
                    (OperationView::RemoveEdges { task_id, outdated: r.0, queue: r.1 }, r.2)
                }
            }
        },
        OperationView::AggregationUpdate { queue } => {
            if queue.len() == 0 {
                (OperationView::Done, ctx)
            } else {
                let c = ContextView { applied: ctx.applied.push(queue[0]), ..ctx };
                if queue.len() == 1 {
                    (OperationView::Done, c)
                } else {
                    (OperationView::AggregationUpdate { queue: queue.drop_first() }, c)
                }
            }
        },
        OperationView::Done => (OperationView::Done, ctx),
    }
}

pub open spec fn op_rank(op: OperationView) -> nat {
    match op {
        OperationView::RemoveEdges { .. } => 2,
        OperationView::AggregationUpdate { .. } => 1,
        OperationView::Done => 0,
    }
}

pub open spec fn op_size(op: OperationView) -> nat {
    match op {
        OperationView::RemoveEdges { outdated, .. } => outdated.len(),
        OperationView::AggregationUpdate { queue } => queue.len(),
        OperationView::Done => 0,
    }
}

/// Whether `next` is smaller than `op` in the order that bounds the run.
pub open spec fn op_smaller(next: OperationView, op: OperationView) -> bool {
    op_rank(next) < op_rank(op) || (op_rank(next) == op_rank(op) && op_size(next) < op_size(op))
}

/// The context once the operation in state `op` has run to its end.
pub open spec fn run_spec(op: OperationView, ctx: ContextView) -> ContextView
    decreases op_rank(op), op_size(op),
{
    if op is Done {
        ctx
    } else {
        let next = step_spec(op, ctx);
        if op_smaller(next.0, op) {
            run_spec(next.0, next.1)
        } else {
            ctx
        }
    }
}

proof fn lemma_without_len(s: Seq<OutdatedEdge>)
    ensures
        without_children(s).len() <= s.len(),
        without_collectibles(s).len() <= s.len(),
    decreases s.len(),
{
    if s.len() > 0 {
        lemma_without_len(s.drop_last());
    }
}

/// Every step of an unfinished operation makes progress.
pub proof fn lemma_step_smaller(op: OperationView, ctx: ContextView)
    requires
        !(op is Done),
    ensures
        op_smaller(step_spec(op, ctx).0, op),
{
    if let OperationView::RemoveEdges { outdated, .. } = op {
        if outdated.len() > 0 {
            lemma_without_len(outdated.drop_last());
        }
    }
}


/// Splits the `Child` edges off `outdated`: returns `first` followed by their
/// ids, and leaves the other edges in their order.
fn take_children(outdated: &mut Vec<OutdatedEdge>, first: TaskId) -> (children: Vec<TaskId>)
    ensures
        children@ == seq![first] + child_ids(old(outdated)@),
        final(outdated)@ == without_children(old(outdated)@),
{
    let mut children: Vec<TaskId> = Vec::new();
    children.push(first);
    let mut kept: Vec<OutdatedEdge> = Vec::new();
    let mut i: usize = 0;
    while i < outdated.len()
        invariant
            i <= outdated@.len(),
            children@ == seq![first] + child_ids(outdated@.subrange(0, i as int)),
            kept@ == without_children(outdated@.subrange(0, i as int)),
        decreases outdated@.len() - i,
    {
        let e = outdated[i];
        proof {
            assert(outdated@.subrange(0, i + 1).drop_last() == outdated@.subrange(0, i as int));
        }
        match e {
            OutdatedEdge::Child(id) => {
                children.push(id);
            },
            _ => {
                kept.push(e);
            },
        }
        i += 1;
    }
    assert(outdated@.subrange(0, i as int) == outdated@);
    *outdated = kept;
    children
}

/// Splits the `Collectible` edges off `outdated`: returns `first` followed by
/// their collectibles with negated counts, and leaves the other edges in their
/// order.
fn take_collectibles(outdated: &mut Vec<OutdatedEdge>, first: (CollectibleRef, i64)) -> (deltas: Vec<(CollectibleRef, i64)>)
    ensures
        deltas@ == seq![first] + collectible_deltas(old(outdated)@),
        final(outdated)@ == without_collectibles(old(outdated)@),
{
    let mut deltas: Vec<(CollectibleRef, i64)> = Vec::new();
    deltas.push(first);
    let mut kept: Vec<OutdatedEdge> = Vec::new();
    let mut i: usize = 0;
    while i < outdated.len()
        invariant
            i <= outdated@.len(),
            deltas@ == seq![first] + collectible_deltas(outdated@.subrange(0, i as int)),
            kept@ == without_collectibles(outdated@.subrange(0, i as int)),
        decreases outdated@.len() - i,
    {
        let e = outdated[i];
        proof {
            assert(outdated@.subrange(0, i + 1).drop_last() == outdated@.subrange(0, i as int));
        }
        match e {
            OutdatedEdge::Collectible(c, n) => {
                deltas.push((c, -(n as i64)));
            },
            _ => {
                kept.push(e);
            },
        }
        i += 1;
    }
    assert(outdated@.subrange(0, i as int) == outdated@);
    *outdated = kept;
    deltas
}

/// Removes the `Child` item of task `t` for each id of `ids`.
fn remove_child_items(ctx: &mut ExecuteContext, t: TaskId, ids: &Vec<TaskId>)
    requires
        old(ctx).wf(),
    ensures
        final(ctx).wf(),
        final(ctx)@ == (ContextView {
            storage: StorageView { items: remove_children(old(ctx)@.storage.items, t, ids@), ..old(ctx)@.storage },
            ..old(ctx)@
        }),
{
    let mut i: usize = 0;
    while i < ids.len()
        invariant
            ctx.wf(),
            i <= ids@.len(),
            ctx@ == (ContextView {
                storage: StorageView { items: remove_children(old(ctx)@.storage.items, t, ids@.subrange(0, i as int)), ..old(ctx)@.storage },
                ..old(ctx)@
            }),
        decreases ids@.len() - i,
    {
        proof {
            assert(ids@.subrange(0, i + 1).drop_last() == ids@.subrange(0, i as int));
        }
        ctx.storage.remove(t, CachedDataItemKey::Child { task: ids[i] });
        i += 1;
    }
    assert(ids@.subrange(0, i as int) == ids@);
}

/// Applies each `(collectible, delta)` of `deltas` to the counters of task `t`.
fn apply_count_deltas(ctx: &mut ExecuteContext, t: TaskId, deltas: &Vec<(CollectibleRef, i64)>)
    requires
        old(ctx).wf(),
    ensures
        final(ctx).wf(),
        final(ctx)@ == (ContextView {
            storage: StorageView { counters: apply_counts(old(ctx)@.storage.counters, t, deltas@), ..old(ctx)@.storage },
            ..old(ctx)@
        }),
{
    let mut i: usize = 0;
    while i < deltas.len()
        invariant
            ctx.wf(),
            i <= deltas@.len(),
            ctx@ == (ContextView {
                storage: StorageView { counters: apply_counts(old(ctx)@.storage.counters, t, deltas@.subrange(0, i as int)), ..old(ctx)@.storage },
                ..old(ctx)@
            }),
        decreases deltas@.len() - i,
    {
        proof {
            assert(deltas@.subrange(0, i + 1).drop_last() == deltas@.subrange(0, i as int));
        }
        let (c, d) = deltas[i];
        ctx.storage.update_count(t, c, d);
        i += 1;
    }
    assert(deltas@.subrange(0, i as int) == deltas@);
}

/// Removes one batch of edges of `task_id`: pops the last pending edge and,
/// for a `Child` or `Collectible` edge, takes every pending edge of its kind
/// along into the same pass.
fn remove_edges(
    task_id: TaskId,
    outdated: &mut Vec<OutdatedEdge>,
    queue: &mut AggregationUpdateQueue,
    ctx: &mut ExecuteContext,
)
    requires
        old(ctx).wf(),
        old(outdated)@.len() > 0,
    ensures
        final(ctx).wf(),
        (final(outdated)@, final(queue)@, final(ctx)@) == remove_edge_batch(
            task_id,
            old(outdated)@.last(),
            old(outdated)@.drop_last(),
            old(queue)@,
            old(ctx)@,
        ),
{
    let edge = outdated.pop().unwrap();
    let ghost s = ctx@.storage;
    match edge {
        OutdatedEdge::Child(child_id) => {
            let children = take_children(outdated, child_id);
            remove_child_items(ctx, task_id, &children);
            let upper_ids = if is_aggregating_node(ctx.storage.get_aggregation_number(task_id)) {
                vec![task_id]
            } else {
                ctx.storage.get_uppers(task_id)
            };
            assert(upper_ids@ == lost_follower_uppers(s, task_id));
            queue.push(AggregationUpdateJob::InnerLostFollowers { upper_ids, lost_follower_ids: children });
        },
        OutdatedEdge::Collectible(collectible, count) => {
            let deltas = take_collectibles(outdated, (collectible, -(count as i64)));
            apply_count_deltas(ctx, task_id, &deltas);
            let update = AggregatedDataUpdate::new().collectibles_update(deltas);
            let job = data_update(&ctx.storage, task_id, update);
            let ghost q = queue@;
            queue.extend(job);
            assert(queue@ =~= q + data_update_jobs(s.uppers, task_id, bump_all(Map::empty(), seq![(collectible, -count as i64)] + collectible_deltas(old(outdated)@.drop_last()))));
        },
        OutdatedEdge::CellDependency(cell_ref) => {
            ctx.storage.remove(cell_ref.task, CachedDataItemKey::CellDependent { cell: cell_ref.cell, task: task_id });
            ctx.storage.remove(task_id, CachedDataItemKey::CellDependency { cell_ref });
            assert(ctx@.storage.items =~= s.items.difference(edge_items(task_id, edge)));
        },
        OutdatedEdge::OutputDependency(output_task) => {
            ctx.storage.remove(output_task, CachedDataItemKey::OutputDependent { task: task_id });
            ctx.storage.remove(task_id, CachedDataItemKey::OutputDependency { output_task });
            assert(ctx@.storage.items =~= s.items.difference(edge_items(task_id, edge)));
        },
        OutdatedEdge::CollectiblesDependency(collectibles_ref) => {
            ctx.storage.remove(
                collectibles_ref.task,
                CachedDataItemKey::CollectiblesDependent { collectible_type: collectibles_ref.collectible_type, task: task_id },
            );
            ctx.storage.remove(task_id, CachedDataItemKey::CollectiblesDependency { collectibles_ref });
            assert(ctx@.storage.items =~= s.items.difference(edge_items(task_id, edge)));
        },
        OutdatedEdge::RemovedCellDependent(dependent_task_id) => {
            make_task_dirty(dependent_task_id, queue, ctx);
        },
    }
}


impl CleanupOldEdgesOperation {
    /// Starts and runs to its end the cleanup of `task_id`'s outdated edges.
    pub fn run(task_id: TaskId, outdated: Vec<OutdatedEdge>, ctx: &mut ExecuteContext)
        requires
            old(ctx).wf(),
        ensures
            final(ctx).wf(),
            final(ctx)@ == run_spec(
                OperationView::RemoveEdges { task_id, outdated: outdated@, queue: Seq::empty() },
                old(ctx)@,
            ),
    {
        let queue = AggregationUpdateQueue::new();
        let op = CleanupOldEdgesOperation::RemoveEdges { task_id, outdated, queue };
        let _done = op.execute(ctx);
    }

    pub fn is_done(&self) -> (r: bool)
        ensures
            r == (self@ is Done),
    {
        match self {
            CleanupOldEdgesOperation::Done => true,
            _ => false,
        }
    }

    /// Performs one unit of work and returns the next state. Each state
    /// returned is a checkpoint from which the operation can be resumed.
    pub fn step(self, ctx: &mut ExecuteContext) -> (r: Self)
        requires
            old(ctx).wf(),
        ensures
            final(ctx).wf(),
            (r@, final(ctx)@) == step_spec(self@, old(ctx)@),
    {
        match self {
            CleanupOldEdgesOperation::RemoveEdges { task_id, mut outdated, mut queue } => {
                if outdated.len() > 0 {
                    remove_edges(task_id, &mut outdated, &mut queue, ctx);
                }
                if outdated.len() == 0 {
                    CleanupOldEdgesOperation::AggregationUpdate { queue }
                } else {
                    CleanupOldEdgesOperation::RemoveEdges { task_id, outdated, queue }
                }
            },
            CleanupOldEdgesOperation::AggregationUpdate { mut queue } => {
                if queue.process(ctx) {
                    CleanupOldEdgesOperation::Done
                } else {
                    CleanupOldEdgesOperation::AggregationUpdate { queue }
                }
            },
            CleanupOldEdgesOperation::Done => CleanupOldEdgesOperation::Done,
        }
    }

    /// Runs the operation from its current state until it is done, and
    /// returns the final state.
    pub fn execute(self, ctx: &mut ExecuteContext) -> (r: Self)
        requires
            old(ctx).wf(),
        ensures
            r@ == OperationView::Done,
            final(ctx).wf(),
            final(ctx)@ == run_spec(self@, old(ctx)@),
    {
        let mut op = self;
        while !op.is_done()
            invariant
                ctx.wf(),
                run_spec(op@, ctx@) == run_spec(self@, old(ctx)@),
            decreases op_rank(op@), op_size(op@),
        {
            proof { lemma_step_smaller(op@, ctx@); }
            op = op.step(ctx);
        }
        op
    }
}

} // verus!
