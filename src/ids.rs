//! Identifiers of tasks, cells and collectibles, and the keys of the items that
//! a task's record holds.
use vstd::prelude::*;

verus! {

/// Identifier of a task in the graph.
#[derive(Clone, Copy, Debug, PartialEq, Eq, Hash, Structural)]
pub struct TaskId {
    pub id: u32,
}

/// A value-producing slot inside a task: the owning task and the cell index.
#[derive(Clone, Copy, Debug, PartialEq, Eq, Hash, Structural)]
pub struct CellRef {
    pub task: TaskId,
    pub cell: u32,
}

/// A collectible of one type emitted by one task.
#[derive(Clone, Copy, Debug, PartialEq, Eq, Hash, Structural)]
pub struct CollectibleRef {
    pub collectible_type: u32,
    pub task: TaskId,
}

/// The aggregate count of one collectible type, observed on one task.
#[derive(Clone, Copy, Debug, PartialEq, Eq, Hash, Structural)]
pub struct CollectiblesRef {
    pub collectible_type: u32,
    pub task: TaskId,
}

/// Key of an edge item stored in a task's record. Every edge is stored twice:
/// a forward item on the dependent task and a back item on the target.
#[derive(Clone, Copy, Debug, PartialEq, Eq, Hash, Structural)]
pub enum CachedDataItemKey {
    Child { task: TaskId },
    CellDependent { cell: u32, task: TaskId },
    CellDependency { cell_ref: CellRef },
    OutputDependent { task: TaskId },
    OutputDependency { output_task: TaskId },
    CollectiblesDependent { collectible_type: u32, task: TaskId },
    CollectiblesDependency { collectibles_ref: CollectiblesRef },
}

/// Equality of keys, decided in executable code.
pub trait KeyEq: Copy {
    fn key_eq(&self, other: &Self) -> (r: bool)
        ensures
            r == (*self == *other),
    ;
}

impl KeyEq for CollectibleRef {
    fn key_eq(&self, other: &Self) -> (r: bool) {
        *self == *other
    }
}

/// Key of a collectible counter kept on a task.
#[derive(Clone, Copy, Debug, PartialEq, Eq, Hash, Structural)]
pub struct CounterKey {
    pub task: TaskId,
    pub collectible: CollectibleRef,
}

impl KeyEq for CounterKey {
    fn key_eq(&self, other: &Self) -> (r: bool) {
        *self == *other
    }
}

} // verus!
