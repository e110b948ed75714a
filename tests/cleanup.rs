use cleanup_old_edges::aggregation::{
    is_aggregating_node, make_task_dirty, AggregationUpdateJob, AggregationUpdateQueue,
    ExecuteContext, AGGREGATING_NUMBER,
};
use cleanup_old_edges::cleanup::{CleanupOldEdgesOperation, OutdatedEdge};
use cleanup_old_edges::ids::{CachedDataItemKey, CellRef, CollectibleRef, CollectiblesRef, TaskId};
use cleanup_old_edges::store::TaskStorage;

fn tid(id: u32) -> TaskId {
    TaskId { id }
}

fn child(t: u32) -> CachedDataItemKey {
    CachedDataItemKey::Child { task: tid(t) }
}

fn ctx_with(storage: TaskStorage) -> ExecuteContext {
    ExecuteContext::new(storage)
}

fn lost_followers(job: &AggregationUpdateJob) -> Option<(Vec<u32>, Vec<u32>)> {
    match job {
        AggregationUpdateJob::InnerLostFollowers { upper_ids, lost_follower_ids } => Some((
            upper_ids.iter().map(|t| t.id).collect(),
            lost_follower_ids.iter().map(|t| t.id).collect(),
        )),
        _ => None,
    }
}

fn sorted(mut v: Vec<u32>) -> Vec<u32> {
    v.sort();
    v
}

#[test]
fn children_of_aggregating_node_lose_followers_once() {
    let mut s = TaskStorage::new();
    s.insert_item(tid(1), child(2));
    s.insert_item(tid(1), child(3));
    s.set_aggregation_number(tid(1), AGGREGATING_NUMBER);
    let mut ctx = ctx_with(s);
    CleanupOldEdgesOperation::run(
        tid(1),
        vec![OutdatedEdge::Child(tid(2)), OutdatedEdge::Child(tid(3))],
        &mut ctx,
    );
    assert!(!ctx.storage.has_item(tid(1), child(2)));
    assert!(!ctx.storage.has_item(tid(1), child(3)));
    assert_eq!(ctx.applied.len(), 1);
    let (uppers, lost) = lost_followers(&ctx.applied[0]).unwrap();
    assert_eq!(uppers, vec![1]);
    assert_eq!(sorted(lost), vec![2, 3]);
}

#[test]
fn children_of_plain_node_go_to_its_uppers() {
    let mut s = TaskStorage::new();
    s.insert_item(tid(1), child(2));
    s.insert_item(tid(1), child(3));
    s.set_aggregation_number(tid(1), 1);
    s.add_upper(tid(1), tid(7));
    s.add_upper(tid(1), tid(8));
    let mut ctx = ctx_with(s);
    CleanupOldEdgesOperation::run(
        tid(1),
        vec![OutdatedEdge::Child(tid(2)), OutdatedEdge::Child(tid(3))],
        &mut ctx,
    );
    assert!(!ctx.storage.has_item(tid(1), child(2)));
    assert!(!ctx.storage.has_item(tid(1), child(3)));
    assert_eq!(ctx.applied.len(), 1);
    let (uppers, lost) = lost_followers(&ctx.applied[0]).unwrap();
    assert_eq!(uppers, vec![7, 8]);
    assert_eq!(sorted(lost), vec![2, 3]);
}

#[test]
fn many_child_edges_make_one_job() {
    let mut s = TaskStorage::new();
    let mut outdated = Vec::new();
    for c in 10..20u32 {
        s.insert_item(tid(1), child(c));
        outdated.push(OutdatedEdge::Child(tid(c)));
    }
    outdated.insert(4, OutdatedEdge::OutputDependency(tid(30)));
    s.add_upper(tid(1), tid(5));
    let mut ctx = ctx_with(s);
    CleanupOldEdgesOperation::run(tid(1), outdated, &mut ctx);
    let jobs: Vec<_> = ctx.applied.iter().filter_map(lost_followers).collect();
    assert_eq!(jobs.len(), 1);
    assert_eq!(jobs[0].0, vec![5]);
    assert_eq!(sorted(jobs[0].1.clone()), (10..20u32).collect::<Vec<_>>());
    for c in 10..20u32 {
        assert!(!ctx.storage.has_item(tid(1), child(c)));
    }
}

#[test]
fn collectible_counts_are_netted() {
    let c = CollectibleRef { collectible_type: 4, task: tid(9) };
    let other = CollectibleRef { collectible_type: 5, task: tid(9) };
    let mut s = TaskStorage::new();
    s.add_upper(tid(1), tid(2));
    s.update_count(tid(1), c, 5);
    s.update_count(tid(1), other, 1);
    let mut ctx = ctx_with(s);
    CleanupOldEdgesOperation::run(
        tid(1),
        vec![
            OutdatedEdge::Collectible(c, 3),
            OutdatedEdge::CellDependency(CellRef { task: tid(3), cell: 0 }),
            OutdatedEdge::Collectible(c, 2),
        ],
        &mut ctx,
    );
    assert_eq!(ctx.storage.get_count(tid(1), c), 0);
    assert_eq!(ctx.storage.get_count(tid(1), other), 1);
    let updates: Vec<_> = ctx
        .applied
        .iter()
        .filter_map(|j| match j {
            AggregationUpdateJob::AggregatedDataUpdate { upper_ids, update } => Some((upper_ids.clone(), update.clone())),
            _ => None,
        })
        .collect();
    assert_eq!(updates.len(), 1);
    assert_eq!(updates[0].0, vec![tid(2)]);
    assert_eq!(updates[0].1.delta_of(&c), -5);
    assert_eq!(updates[0].1.delta_of(&other), 0);
}

#[test]
fn collectibles_without_uppers_queue_nothing() {
    let c = CollectibleRef { collectible_type: 4, task: tid(9) };
    let mut s = TaskStorage::new();
    s.update_count(tid(1), c, 1);
    let mut ctx = ctx_with(s);
    CleanupOldEdgesOperation::run(tid(1), vec![OutdatedEdge::Collectible(c, 1)], &mut ctx);
    assert_eq!(ctx.storage.get_count(tid(1), c), 0);
    assert!(ctx.applied.is_empty());
}

#[test]
fn cell_dependency_removes_both_sides() {
    let r = CellRef { task: tid(2), cell: 2 };
    let mut s = TaskStorage::new();
    s.insert_item(tid(2), CachedDataItemKey::CellDependent { cell: 2, task: tid(1) });
    s.insert_item(tid(1), CachedDataItemKey::CellDependency { cell_ref: r });
    s.insert_item(tid(2), CachedDataItemKey::CellDependent { cell: 3, task: tid(1) });
    let mut ctx = ctx_with(s);
    CleanupOldEdgesOperation::run(tid(1), vec![OutdatedEdge::CellDependency(r)], &mut ctx);
    assert!(!ctx.storage.has_item(tid(2), CachedDataItemKey::CellDependent { cell: 2, task: tid(1) }));
    assert!(!ctx.storage.has_item(tid(1), CachedDataItemKey::CellDependency { cell_ref: r }));
    assert!(ctx.storage.has_item(tid(2), CachedDataItemKey::CellDependent { cell: 3, task: tid(1) }));
    assert!(ctx.applied.is_empty());
}

#[test]
fn output_and_collectibles_dependencies_remove_both_sides() {
    let cr = CollectiblesRef { collectible_type: 6, task: tid(4) };
    let mut s = TaskStorage::new();
    s.insert_item(tid(3), CachedDataItemKey::OutputDependent { task: tid(1) });
    s.insert_item(tid(1), CachedDataItemKey::OutputDependency { output_task: tid(3) });
    s.insert_item(tid(4), CachedDataItemKey::CollectiblesDependent { collectible_type: 6, task: tid(1) });
    s.insert_item(tid(1), CachedDataItemKey::CollectiblesDependency { collectibles_ref: cr });
    let mut ctx = ctx_with(s);
    CleanupOldEdgesOperation::run(
        tid(1),
        vec![OutdatedEdge::OutputDependency(tid(3)), OutdatedEdge::CollectiblesDependency(cr)],
        &mut ctx,
    );
    assert!(!ctx.storage.has_item(tid(3), CachedDataItemKey::OutputDependent { task: tid(1) }));
    assert!(!ctx.storage.has_item(tid(1), CachedDataItemKey::OutputDependency { output_task: tid(3) }));
    assert!(!ctx.storage.has_item(tid(4), CachedDataItemKey::CollectiblesDependent { collectible_type: 6, task: tid(1) }));
    assert!(!ctx.storage.has_item(tid(1), CachedDataItemKey::CollectiblesDependency { collectibles_ref: cr }));
    assert!(ctx.applied.is_empty());
}

#[test]
fn removing_absent_or_twice_is_a_no_op() {
    let r = CellRef { task: tid(2), cell: 1 };
    let mut s = TaskStorage::new();
    s.insert_item(tid(1), child(5));
    s.remove(tid(1), child(6));
    assert!(s.has_item(tid(1), child(5)));
    s.remove(tid(1), child(5));
    s.remove(tid(1), child(5));
    assert!(!s.has_item(tid(1), child(5)));
    let mut ctx = ctx_with(s);
    CleanupOldEdgesOperation::run(
        tid(1),
        vec![OutdatedEdge::CellDependency(r), OutdatedEdge::CellDependency(r)],
        &mut ctx,
    );
    assert!(ctx.applied.is_empty());
    assert!(!ctx.storage.has_item(tid(1), CachedDataItemKey::CellDependency { cell_ref: r }));
}

fn sample() -> (TaskStorage, Vec<OutdatedEdge>) {
    let c = CollectibleRef { collectible_type: 1, task: tid(1) };
    let r = CellRef { task: tid(6), cell: 0 };
    let mut s = TaskStorage::new();
    s.insert_item(tid(1), child(2));
    s.insert_item(tid(1), child(3));
    s.insert_item(tid(6), CachedDataItemKey::CellDependent { cell: 0, task: tid(1) });
    s.insert_item(tid(1), CachedDataItemKey::CellDependency { cell_ref: r });
    s.add_upper(tid(1), tid(9));
    s.update_count(tid(1), c, 4);
    let outdated = vec![
        OutdatedEdge::Child(tid(2)),
        OutdatedEdge::Collectible(c, 4),
        OutdatedEdge::CellDependency(r),
        OutdatedEdge::RemovedCellDependent(tid(7)),
        OutdatedEdge::Child(tid(3)),
    ];
    (s, outdated)
}

fn summary(ctx: &ExecuteContext) -> (Vec<bool>, i64, bool, usize, Vec<Option<(Vec<u32>, Vec<u32>)>>) {
    let c = CollectibleRef { collectible_type: 1, task: tid(1) };
    let r = CellRef { task: tid(6), cell: 0 };
    (
        vec![
            ctx.storage.has_item(tid(1), child(2)),
            ctx.storage.has_item(tid(1), child(3)),
            ctx.storage.has_item(tid(6), CachedDataItemKey::CellDependent { cell: 0, task: tid(1) }),
            ctx.storage.has_item(tid(1), CachedDataItemKey::CellDependency { cell_ref: r }),
        ],
        ctx.storage.get_count(tid(1), c),
        ctx.storage.is_dirty(tid(7)),
        ctx.applied.len(),
        ctx.applied.iter().map(lost_followers).collect(),
    )
}

#[test]
fn run_removes_every_edge_and_drains_the_queue() {
    let (s, outdated) = sample();
    let mut ctx = ctx_with(s);
    let op = CleanupOldEdgesOperation::RemoveEdges { task_id: tid(1), outdated, queue: AggregationUpdateQueue::new() };
    let end = op.execute(&mut ctx);
    assert!(end.is_done());
    let (items, count, dirty, applied, _) = summary(&ctx);
    assert_eq!(items, vec![false, false, false, false]);
    assert_eq!(count, 0);
    assert!(dirty);
    assert_eq!(applied, 3);
}

#[test]
fn resuming_from_any_checkpoint_gives_the_same_result() {
    let (s, outdated) = sample();
    let mut whole = ctx_with(s);
    CleanupOldEdgesOperation::run(tid(1), outdated.clone(), &mut whole);
    let expected = summary(&whole);
    for stop in 0..8usize {
        let (s, outdated) = sample();
        let mut ctx = ctx_with(s);
        let mut op = CleanupOldEdgesOperation::RemoveEdges { task_id: tid(1), outdated, queue: AggregationUpdateQueue::new() };
        for _ in 0..stop {
            op = op.step(&mut ctx);
        }
        let checkpoint = op.clone();
        drop(op);
        let end = checkpoint.execute(&mut ctx);
        assert!(end.is_done());
        assert_eq!(summary(&ctx), expected);
    }
}

#[test]
fn removed_cell_dependent_equals_direct_invalidation() {
    let mut a = ctx_with(TaskStorage::new());
    CleanupOldEdgesOperation::run(tid(1), vec![OutdatedEdge::RemovedCellDependent(tid(4))], &mut a);
    let mut b = ctx_with(TaskStorage::new());
    let mut queue = AggregationUpdateQueue::new();
    make_task_dirty(tid(4), &mut queue, &mut b);
    assert_eq!(queue.jobs.len(), 1);
    assert!(matches!(queue.jobs[0], AggregationUpdateJob::DirtyContainer { task_id } if task_id == tid(4)));
    assert!(a.storage.is_dirty(tid(4)) && b.storage.is_dirty(tid(4)));
    assert_eq!(a.applied.len(), 1);
    assert!(matches!(a.applied[0], AggregationUpdateJob::DirtyContainer { task_id } if task_id == tid(4)));
}

#[test]
fn invalidating_a_dirty_task_queues_nothing() {
    let mut s = TaskStorage::new();
    s.set_dirty(tid(4));
    let mut ctx = ctx_with(s);
    CleanupOldEdgesOperation::run(tid(1), vec![OutdatedEdge::RemovedCellDependent(tid(4))], &mut ctx);
    assert!(ctx.applied.is_empty());
}

#[test]
fn empty_list_finishes_at_once() {
    let mut ctx = ctx_with(TaskStorage::new());
    let op = CleanupOldEdgesOperation::RemoveEdges { task_id: tid(1), outdated: Vec::new(), queue: AggregationUpdateQueue::new() };
    let op = op.step(&mut ctx);
    assert!(matches!(op, CleanupOldEdgesOperation::AggregationUpdate { .. }));
    let op = op.step(&mut ctx);
    assert!(op.is_done());
    assert!(ctx.applied.is_empty());
    assert!(CleanupOldEdgesOperation::default().is_done());
}

#[test]
fn counters_report_change_and_vanish_at_zero() {
    let c = CollectibleRef { collectible_type: 2, task: tid(1) };
    let mut s = TaskStorage::new();
    assert!(s.update_count(tid(1), c, 3));
    assert!(!s.update_count(tid(1), c, 0));
    assert_eq!(s.get_count(tid(1), c), 3);
    assert!(s.update_count(tid(1), c, -3));
    assert_eq!(s.get_count(tid(1), c), 0);
    assert!(s.update_count(tid(1), c, i64::MAX));
    assert!(!s.update_count(tid(1), c, 1));
    assert_eq!(s.get_count(tid(1), c), i64::MAX);
}

#[test]
fn aggregation_metadata_reads() {
    let mut s = TaskStorage::new();
    assert_eq!(s.get_aggregation_number(tid(1)), 0);
    s.set_aggregation_number(tid(1), 3);
    s.set_aggregation_number(tid(2), 40);
    s.set_aggregation_number(tid(1), 20);
    assert_eq!(s.get_aggregation_number(tid(1)), 20);
    assert!(is_aggregating_node(AGGREGATING_NUMBER));
    assert!(!is_aggregating_node(AGGREGATING_NUMBER - 1));
    s.add_upper(tid(1), tid(5));
    s.add_upper(tid(2), tid(6));
    s.add_upper(tid(1), tid(4));
    assert_eq!(s.get_uppers(tid(1)), vec![tid(5), tid(4)]);
}
