//! Frame render graph: schedules GPU passes by their dependencies and inserts
//! the synchronization barriers that their declared resource usages call for.
pub mod graph;
pub mod guarantees;
pub mod rhi;
pub mod schedule;
pub mod sync;
pub mod tracking;
