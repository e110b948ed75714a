//! Follow-up work for the aggregation tree: the jobs, the queue that holds them
//! while an operation runs, and the context whose processor drains it.
use vstd::prelude::*;
use crate::counts::{bump_all, CountMap};
use crate::ids::{CollectibleRef, TaskId};
use crate::store::{uppers_of, StorageView, TaskStorage};

verus! {

/// Aggregation numbers at or above this mark a node that aggregates its whole
/// subtree and acts as its own upper.
pub const AGGREGATING_NUMBER: u32 = 16;

/// Whether a task with aggregation number `n` is an aggregating node.
pub fn is_aggregating_node(n: u32) -> (r: bool)
    ensures
        r == (n >= AGGREGATING_NUMBER),
{
    n >= AGGREGATING_NUMBER
}

/// Net changes of collectible counts, to be propagated to the uppers of a task.
#[derive(Clone)]
pub struct AggregatedDataUpdate {
    collectibles: CountMap<CollectibleRef>,
}

impl AggregatedDataUpdate {
    pub closed spec fn view(&self) -> Map<CollectibleRef, int> {
        self.collectibles@
    }

    pub closed spec fn wf(&self) -> bool {
        self.collectibles.wf()
    }

    /// An update that changes nothing.
    pub fn new() -> (r: Self)
        ensures
            r.wf(),
            r@ == Map::<CollectibleRef, int>::empty(),
    {
        AggregatedDataUpdate { collectibles: CountMap::new() }
    }

    /// Adds each `(collectible, delta)` of `changes` to this update, netting
    /// the deltas of equal collectibles.
    pub fn collectibles_update(self, changes: Vec<(CollectibleRef, i64)>) -> (r: Self)
        requires
            self.wf(),
        ensures
            r.wf(),
            r@ == bump_all(self@, changes@),
    {
        let mut r = self;
        let mut i: usize = 0;
        while i < changes.len()
            invariant
                r.wf(),
                i <= changes@.len(),
                r@ == bump_all(self@, changes@.subrange(0, i as int)),
            decreases changes@.len() - i,
        {
            let (c, d) = changes[i];
            r.collectibles.update(c, d);
            proof {
                assert(changes@.subrange(0, i + 1).drop_last() == changes@.subrange(0, i as int));
            }
            i += 1;
        }
        assert(changes@.subrange(0, i as int) == changes@);
        r
    }

    /// The net deltas carried, each collectible once.
    pub fn entries(&self) -> (r: Vec<(CollectibleRef, i64)>)
        requires
            self.wf(),
        ensures
            CountMap::<CollectibleRef>::entries_map(r@) == self@,
            forall|i: int, j: int| 0 <= i < j < r@.len() ==> r@[i].0 != r@[j].0,
            forall|i: int| 0 <= i < r@.len() ==> r@[i].1 != 0,
    {
        self.collectibles.entries()
    }

    /// The net delta carried for `collectible`, zero when none.
    pub fn delta_of(&self, collectible: &CollectibleRef) -> (r: i64)
        requires
            self.wf(),
        ensures
            r as int == crate::counts::count_of(self@, *collectible),
    {
        self.collectibles.get(collectible)
    }
}

/// A job of graph maintenance for the aggregation subsystem.
#[derive(Clone)]
pub enum AggregationUpdateJob {
    /// The uppers lost the given followers.
    InnerLostFollowers { upper_ids: Vec<TaskId>, lost_follower_ids: Vec<TaskId> },
    /// The uppers receive the net collectible changes of a follower.
    AggregatedDataUpdate { upper_ids: Vec<TaskId>, update: AggregatedDataUpdate },
    /// A task became dirty; its aggregated dirty state must be updated.
    DirtyContainer { task_id: TaskId },
}

pub ghost enum JobView {
    InnerLostFollowers { upper_ids: Seq<TaskId>, lost_follower_ids: Seq<TaskId> },
    AggregatedDataUpdate { upper_ids: Seq<TaskId>, collectibles: Map<CollectibleRef, int> },
    DirtyContainer { task_id: TaskId },
}

impl AggregationUpdateJob {
    pub open spec fn view(&self) -> JobView {
        match self {
            AggregationUpdateJob::InnerLostFollowers { upper_ids, lost_follower_ids } =>
                JobView::InnerLostFollowers { upper_ids: upper_ids@, lost_follower_ids: lost_follower_ids@ },
            AggregationUpdateJob::AggregatedDataUpdate { upper_ids, update } =>
                JobView::AggregatedDataUpdate { upper_ids: upper_ids@, collectibles: update@ },
            AggregationUpdateJob::DirtyContainer { task_id } => JobView::DirtyContainer { task_id: *task_id },
        }
    }
}

pub open spec fn jobs_view(s: Seq<AggregationUpdateJob>) -> Seq<JobView> {
    s.map_values(|j: AggregationUpdateJob| j@)
}

/// The jobs that propagate `update` from task `t`: one
/// `AggregatedDataUpdate` to its uppers, or none when it has no upper.
pub open spec fn data_update_jobs(
    uppers: Seq<(TaskId, TaskId)>,
    t: TaskId,
    update: Map<CollectibleRef, int>,
) -> Seq<JobView> {
    if uppers_of(uppers, t).len() == 0 {
        Seq::empty()
    } else {
        seq![JobView::AggregatedDataUpdate { upper_ids: uppers_of(uppers, t), collectibles: update }]
    }
}

/// The job that propagates `update` from `task_id` to its uppers, if any.
pub fn data_update(storage: &TaskStorage, task_id: TaskId, update: AggregatedDataUpdate) -> (r: Option<AggregationUpdateJob>)
    ensures
        match r {
            Some(j) => seq![j@] == data_update_jobs(storage@.uppers, task_id, update@),
            None => data_update_jobs(storage@.uppers, task_id, update@) == Seq::<JobView>::empty(),
        },
{
    let upper_ids = storage.get_uppers(task_id);
    if upper_ids.len() == 0 {
        None
    } else {
        Some(AggregationUpdateJob::AggregatedDataUpdate { upper_ids, update })
    }
}

/// The execution context: the store, and the jobs handed so far to the
/// aggregation processor, in order.
pub struct ExecuteContext {
    pub storage: TaskStorage,
    pub applied: Vec<AggregationUpdateJob>,
}

pub ghost struct ContextView {
    pub storage: StorageView,
    pub applied: Seq<JobView>,
}

impl ExecuteContext {
    pub open spec fn view(&self) -> ContextView {
        ContextView { storage: self.storage@, applied: jobs_view(self.applied@) }
    }

    pub open spec fn wf(&self) -> bool {
        self.storage.wf()
    }

    /// A context over `storage` that has processed no job yet.
    pub fn new(storage: TaskStorage) -> (r: Self)
        requires
            storage.wf(),
        ensures
            r.wf(),
            r@.storage == storage@,
            r@.applied == Seq::<JobView>::empty(),
    {
        let r = ExecuteContext { storage, applied: Vec::new() };
        assert(r@.applied =~= Seq::<JobView>::empty());
        r
    }
}

/// An ordered list of aggregation jobs, owned by one running operation.
#[derive(Clone)]
pub struct AggregationUpdateQueue {
    pub jobs: Vec<AggregationUpdateJob>,
}

impl AggregationUpdateQueue {
    pub open spec fn view(&self) -> Seq<JobView> {
        jobs_view(self.jobs@)
    }

    pub fn new() -> (r: Self)
        ensures
            r@ == Seq::<JobView>::empty(),
    {
        let r = AggregationUpdateQueue { jobs: Vec::new() };
        assert(r@ =~= Seq::<JobView>::empty());
        r
    }

    pub fn push(&mut self, job: AggregationUpdateJob)
        ensures
            final(self)@ == old(self)@.push(job@),
    {
        self.jobs.push(job);
        assert(self@ =~= old(self)@.push(job@));
    }

    /// Appends the job of `jobs`, if any.
    pub fn extend(&mut self, jobs: Option<AggregationUpdateJob>)
        ensures
            final(self)@ == match jobs {
                Some(j) => old(self)@.push(j@),
                None => old(self)@,
            },
    {
        if let Some(j) = jobs {
            self.push(j);
        }
    }

    pub fn is_empty(&self) -> (r: bool)
        ensures
            r == (self@.len() == 0),
    {
        self.jobs.len() == 0
    }

    /// One bounded unit of draining: hands the front job to the processor of
    /// `ctx`. Returns whether the queue is empty afterwards.
    pub fn process(&mut self, ctx: &mut ExecuteContext) -> (done: bool)
        ensures
            final(self)@ == if old(self)@.len() == 0 { old(self)@ } else { old(self)@.drop_first() },
            final(ctx)@ == (ContextView {
                applied: if old(self)@.len() == 0 { old(ctx)@.applied } else { old(ctx)@.applied.push(old(self)@[0]) },
                ..old(ctx)@
            }),
            final(ctx).storage == old(ctx).storage,
            done == (final(self)@.len() == 0),
    {
        if self.jobs.len() > 0 {
            let job = self.jobs.remove(0);
            ctx.applied.push(job);
            assert(self@ =~= old(self)@.drop_first());
            assert(ctx@.applied =~= old(ctx)@.applied.push(old(self)@[0]));
        }
        self.jobs.len() == 0
    }
}

/// Effect of invalidating task `t`: when it is not dirty yet it becomes dirty
/// and a `DirtyContainer` job is queued; otherwise nothing changes.
pub open spec fn dirty_effect(t: TaskId, queue: Seq<JobView>, ctx: ContextView) -> (Seq<JobView>, ContextView) {
    if ctx.storage.dirty.contains(t) {
        (queue, ctx)
    } else {
        (
            queue.push(JobView::DirtyContainer { task_id: t }),
            ContextView { storage: StorageView { dirty: ctx.storage.dirty.insert(t), ..ctx.storage }, ..ctx },
        )
    }
}

/// Marks the cached output of `task_id` stale.
pub fn make_task_dirty(task_id: TaskId, queue: &mut AggregationUpdateQueue, ctx: &mut ExecuteContext)
    requires
        old(ctx).wf(),
    ensures
        final(ctx).wf(),
        (final(queue)@, final(ctx)@) == dirty_effect(task_id, old(queue)@, old(ctx)@),
{
    if !ctx.storage.is_dirty(task_id) {
        ctx.storage.set_dirty(task_id);
        queue.push(AggregationUpdateJob::DirtyContainer { task_id });
    }
}

} // verus!
