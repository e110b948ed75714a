//! Laws of the cleanup operation, proved over its step and run functions.
use vstd::prelude::*;
use crate::aggregation::{data_update_jobs, dirty_effect, ContextView, JobView};
use crate::counts::bump_all;
use crate::cleanup::{
    apply_counts, child_ids, collectible_deltas, edge_items, lemma_step_smaller, lost_follower_uppers,
    remove_children, remove_edge_batch, run_spec, step_spec, without_children,
    without_collectibles, OperationView, OutdatedEdge,
};
use crate::ids::{CachedDataItemKey, TaskId};

verus! {

/// The state reached from `op` after `k` steps.
pub open spec fn steps_spec(op: OperationView, ctx: ContextView, k: nat) -> (OperationView, ContextView)
    decreases k,
{
    if k == 0 {
        (op, ctx)
    } else {
        let n = step_spec(op, ctx);
        steps_spec(n.0, n.1, (k - 1) as nat)
    }
}

/// The queue held by a state; none once done.
pub open spec fn op_queue(op: OperationView) -> Seq<JobView> {
    match op {
        OperationView::RemoveEdges { queue, .. } => queue,
        OperationView::AggregationUpdate { queue } => queue,
        OperationView::Done => Seq::empty(),
    }
}

/// The edges still pending in a state.
pub open spec fn op_outdated(op: OperationView) -> Seq<OutdatedEdge> {
    match op {
        OperationView::RemoveEdges { outdated, .. } => outdated,
        _ => Seq::empty(),
    }
}

proof fn lemma_run_unfold(op: OperationView, ctx: ContextView)
    ensures
        run_spec(op, ctx) == run_spec(step_spec(op, ctx).0, step_spec(op, ctx).1),
{
    if !(op is Done) {
        lemma_step_smaller(op, ctx);
    }
}

/// Resuming: running on from the state reached after any number of steps
/// ends in the same context as running from the start without a stop.
pub proof fn lemma_resume(op: OperationView, ctx: ContextView, k: nat)
    ensures
        run_spec(steps_spec(op, ctx, k).0, steps_spec(op, ctx, k).1) == run_spec(op, ctx),
    decreases k,
{
    if k > 0 {
        let n = step_spec(op, ctx);
        lemma_resume(n.0, n.1, (k - 1) as nat);
        lemma_run_unfold(op, ctx);
    }
}

proof fn lemma_remove_children_subset(items: Set<(TaskId, CachedDataItemKey)>, t: TaskId, ids: Seq<TaskId>)
    ensures
        remove_children(items, t, ids).subset_of(items),
        forall|x: TaskId| #[trigger] ids.contains(x) ==> !remove_children(items, t, ids).contains((t, CachedDataItemKey::Child { task: x })),
    decreases ids.len(),
{
    if ids.len() > 0 {
        lemma_remove_children_subset(items, t, ids.drop_last());
        assert forall|x: TaskId| #[trigger] ids.contains(x) implies !remove_children(items, t, ids).contains((t, CachedDataItemKey::Child { task: x })) by {
            let i = choose|i: int| 0 <= i < ids.len() && ids[i] == x;
            if i < ids.len() - 1 {
                assert(ids.drop_last()[i] == x);
                assert(ids.drop_last().contains(x));
            } else {
                assert(ids.last() == x);
            }
        }
    }
}

proof fn lemma_step_shrinks(op: OperationView, ctx: ContextView)
    ensures
        step_spec(op, ctx).1.storage.items.subset_of(ctx.storage.items),
{
    if let OperationView::RemoveEdges { task_id, outdated, queue } = op {
        if outdated.len() > 0 {
            if let OutdatedEdge::Child(c) = outdated.last() {
                lemma_remove_children_subset(ctx.storage.items, task_id, seq![c] + child_ids(outdated.drop_last()));
            }
        }
    }
}

proof fn lemma_run_shrinks(op: OperationView, ctx: ContextView)
    ensures
        run_spec(op, ctx).storage.items.subset_of(ctx.storage.items),
    decreases crate::cleanup::op_rank(op), crate::cleanup::op_size(op),
{
    if !(op is Done) {
        lemma_step_smaller(op, ctx);
        let n = step_spec(op, ctx);
        lemma_step_shrinks(op, ctx);
        lemma_run_shrinks(n.0, n.1);
    }
}

proof fn lemma_child_in_ids(s: Seq<OutdatedEdge>, x: TaskId)
    requires
        s.contains(OutdatedEdge::Child(x)),
    ensures
        child_ids(s).contains(x),
    decreases s.len(),
{
    let i = choose|i: int| 0 <= i < s.len() && s[i] == OutdatedEdge::Child(x);
    if i == s.len() - 1 {
        assert(child_ids(s).last() == x);
    } else {
        assert(s.drop_last()[i] == OutdatedEdge::Child(x));
        lemma_child_in_ids(s.drop_last(), x);
        let j = choose|j: int| 0 <= j < child_ids(s.drop_last()).len() && child_ids(s.drop_last())[j] == x;
        match s.last() {
            OutdatedEdge::Child(y) => assert(child_ids(s)[j] == x),
            _ => {},
        }
    }
}

proof fn lemma_kept(s: Seq<OutdatedEdge>, e: OutdatedEdge)
    requires
        s.contains(e),
    ensures
        !(e is Child) ==> without_children(s).contains(e),
        !(e is Collectible) ==> without_collectibles(s).contains(e),
    decreases s.len(),
{
    let i = choose|i: int| 0 <= i < s.len() && s[i] == e;
    if i == s.len() - 1 {
        if !(e is Child) {
            assert(without_children(s).last() == e);
        }
        if !(e is Collectible) {
            assert(without_collectibles(s).last() == e);
        }
    } else {
        assert(s.drop_last()[i] == e);
        lemma_kept(s.drop_last(), e);
        if !(e is Child) {
            let j = choose|j: int| 0 <= j < without_children(s.drop_last()).len() && without_children(s.drop_last())[j] == e;
            assert(without_children(s)[j] == e);
        }
        if !(e is Collectible) {
            let j = choose|j: int| 0 <= j < without_collectibles(s.drop_last()).len() && without_collectibles(s.drop_last())[j] == e;
            assert(without_collectibles(s)[j] == e);
        }
    }
}

proof fn lemma_batch_removes(t: TaskId, outdated: Seq<OutdatedEdge>, queue: Seq<JobView>, ctx: ContextView, e: OutdatedEdge)
    requires
        outdated.len() > 0,
        outdated.contains(e),
    ensures
        ({
            let r = remove_edge_batch(t, outdated.last(), outdated.drop_last(), queue, ctx);
            r.0.contains(e) || r.2.storage.items.disjoint(edge_items(t, e))
        }),
{
    let p = outdated.last();
    let rest = outdated.drop_last();
    let i = choose|i: int| 0 <= i < outdated.len() && outdated[i] == e;
    if e != p {
        assert(rest[i] == e);
        lemma_kept(rest, e);
    }
    let r = remove_edge_batch(t, p, rest, queue, ctx);
    match p {
        OutdatedEdge::Child(c) => {
            let batch = seq![c] + child_ids(rest);
            lemma_remove_children_subset(ctx.storage.items, t, batch);
            if let OutdatedEdge::Child(x) = e {
                if e == p {
                    assert(batch[0] == x);
                } else {
                    lemma_child_in_ids(rest, x);
                    let j = choose|j: int| 0 <= j < child_ids(rest).len() && child_ids(rest)[j] == x;
                    assert(batch[j + 1] == x);
                }
                assert(batch.contains(x));
                assert(r.2.storage.items.disjoint(edge_items(t, e)));
            }
        },
        OutdatedEdge::Collectible(_, _) => {
            if e is Collectible {
                assert(edge_items(t, e) =~= Set::empty());
            }
        },
        OutdatedEdge::RemovedCellDependent(_) => {
            if e == p {
                assert(edge_items(t, e) =~= Set::empty());
            }
        },
        _ => {},
    }
}

/// After a run of the cleanup of `task_id` over `outdated`, neither the
/// forward nor the back item of any listed edge is left in the store.
pub proof fn lemma_run_removes_edges(task_id: TaskId, outdated: Seq<OutdatedEdge>, queue: Seq<JobView>, ctx: ContextView)
    ensures
        forall|e: OutdatedEdge| #[trigger] outdated.contains(e) ==> run_spec(
            OperationView::RemoveEdges { task_id, outdated, queue },
            ctx,
        ).storage.items.disjoint(edge_items(task_id, e)),
    decreases outdated.len(),
{
    let op = OperationView::RemoveEdges { task_id, outdated, queue };
    lemma_run_unfold(op, ctx);
    if outdated.len() > 0 {
        let r = remove_edge_batch(task_id, outdated.last(), outdated.drop_last(), queue, ctx);
        let n = step_spec(op, ctx);
        crate::cleanup::lemma_step_smaller(op, ctx);
        lemma_run_shrinks(n.0, n.1);
        if r.0.len() > 0 {
            lemma_run_removes_edges(task_id, r.0, r.1, r.2);
        }
        assert forall|e: OutdatedEdge| #[trigger] outdated.contains(e) implies run_spec(op, ctx).storage.items.disjoint(edge_items(task_id, e)) by {
            lemma_batch_removes(task_id, outdated, queue, ctx, e);
        }
    }
}

/// Removing an item a second time, or an absent item, changes nothing.
pub proof fn lemma_remove_idempotent(items: Set<(TaskId, CachedDataItemKey)>, t: TaskId, key: CachedDataItemKey)
    ensures
        items.remove((t, key)).remove((t, key)) == items.remove((t, key)),
        !items.contains((t, key)) ==> items.remove((t, key)) == items,
{
    assert(items.remove((t, key)).remove((t, key)) =~= items.remove((t, key)));
    if !items.contains((t, key)) {
        assert(items.remove((t, key)) =~= items);
    }
}

/// Removing a dependency edge whose items are already gone leaves the store
/// and the queue as they were.
pub proof fn lemma_remove_absent_edge(t: TaskId, e: OutdatedEdge, rest: Seq<OutdatedEdge>, queue: Seq<JobView>, ctx: ContextView)
    requires
        e is CellDependency || e is OutputDependency || e is CollectiblesDependency,
        ctx.storage.items.disjoint(edge_items(t, e)),
    ensures
        remove_edge_batch(t, e, rest, queue, ctx) == (rest, queue, ctx),
{
    assert(ctx.storage.items.difference(edge_items(t, e)) =~= ctx.storage.items);
}

proof fn lemma_no_children_left(s: Seq<OutdatedEdge>)
    ensures
        forall|i: int| 0 <= i < without_children(s).len() ==> !(#[trigger] without_children(s)[i] is Child),
    decreases s.len(),
{
    if s.len() > 0 {
        lemma_no_children_left(s.drop_last());
    }
}

/// A step whose popped edge is a `Child` takes every pending `Child` edge into
/// one batch: none stays pending, and exactly one `InnerLostFollowers` job,
/// listing all their ids, is queued.
pub proof fn lemma_children_one_job(task_id: TaskId, outdated: Seq<OutdatedEdge>, queue: Seq<JobView>, ctx: ContextView)
    requires
        outdated.len() > 0,
        outdated.last() is Child,
    ensures
        ({
            let n = step_spec(OperationView::RemoveEdges { task_id, outdated, queue }, ctx);
            &&& forall|i: int| 0 <= i < op_outdated(n.0).len() ==> !(#[trigger] op_outdated(n.0)[i] is Child)
            &&& exists|ids: Seq<TaskId>|
                ids.to_multiset() == child_ids(outdated).to_multiset()
                && op_queue(n.0) == queue.push(JobView::InnerLostFollowers {
                    upper_ids: lost_follower_uppers(ctx.storage, task_id),
                    lost_follower_ids: ids,
                })
        }),
{
    let rest = outdated.drop_last();
    let c = outdated.last()->Child_0;
    let ids = seq![c] + child_ids(rest);
    lemma_no_children_left(rest);
    vstd::seq_lib::lemma_multiset_commutative(seq![c], child_ids(rest));
    vstd::seq_lib::lemma_multiset_commutative(child_ids(rest), seq![c]);
    assert(child_ids(outdated) == child_ids(rest) + seq![c]);
    assert(ids.to_multiset() == child_ids(outdated).to_multiset());
}

proof fn lemma_no_collectibles_left(s: Seq<OutdatedEdge>)
    ensures
        forall|i: int| 0 <= i < without_collectibles(s).len() ==> !(#[trigger] without_collectibles(s)[i] is Collectible),
    decreases s.len(),
{
    if s.len() > 0 {
        lemma_no_collectibles_left(s.drop_last());
    }
}

/// A step whose popped edge is a `Collectible` takes every pending
/// `Collectible` edge into one batch: none stays pending, the counters of the
/// task are decremented by each count, and at most one job, carrying the net
/// of the negated counts, is queued.
pub proof fn lemma_collectibles_one_update(task_id: TaskId, outdated: Seq<OutdatedEdge>, queue: Seq<JobView>, ctx: ContextView)
    requires
        outdated.len() > 0,
        outdated.last() is Collectible,
    ensures
        ({
            let n = step_spec(OperationView::RemoveEdges { task_id, outdated, queue }, ctx);
            let batch = seq![(outdated.last()->Collectible_0, -outdated.last()->Collectible_1 as i64)]
                + collectible_deltas(outdated.drop_last());
            &&& forall|i: int| 0 <= i < op_outdated(n.0).len() ==> !(#[trigger] op_outdated(n.0)[i] is Collectible)
            &&& n.1.storage.counters == apply_counts(ctx.storage.counters, task_id, batch)
            &&& op_queue(n.0) == queue + data_update_jobs(ctx.storage.uppers, task_id, bump_all(Map::empty(), batch))
            &&& data_update_jobs(ctx.storage.uppers, task_id, bump_all(Map::empty(), batch)).len() <= 1
        }),
{
    lemma_no_collectibles_left(outdated.drop_last());
}

/// A `RemovedCellDependent(d)` edge has the effect of invalidating `d`
/// directly with the same queue, and leaves the other edges pending.
pub proof fn lemma_removed_dependent_invalidates(
    task_id: TaskId,
    rest: Seq<OutdatedEdge>,
    d: TaskId,
    queue: Seq<JobView>,
    ctx: ContextView,
)
    ensures
        ({
            let n = step_spec(
                OperationView::RemoveEdges { task_id, outdated: rest.push(OutdatedEdge::RemovedCellDependent(d)), queue },
                ctx,
            );
            &&& op_outdated(n.0) == rest
            &&& (op_queue(n.0), n.1) == dirty_effect(d, queue, ctx)
        }),
{
    assert(rest.push(OutdatedEdge::RemovedCellDependent(d)).drop_last() == rest);
}

} // verus!
