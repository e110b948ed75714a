//! Edge cleanup for an incremental task graph: removes the outdated edges that
//! a re-executed task left behind and drains the aggregation work it causes.
use vstd::prelude::*;

pub mod ids;
pub mod counts;
pub mod store;
pub mod aggregation;
pub mod cleanup;
pub mod theorems;

verus! {

} // verus!
