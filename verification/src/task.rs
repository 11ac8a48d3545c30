//! Identifiers for cooperatively polled tasks. The executor that owns the
//! tasks' futures lives outside this crate; the identifier arithmetic is
//! here.

use vstd::prelude::*;

verus! {

/// A task's identity: the value of the executor's monotone counter at
/// creation.
#[derive(Debug, Clone, Copy, PartialEq, Eq, Structural, PartialOrd, Ord)]
pub struct TaskId(pub u64);

impl TaskId {
    /// The identifier minted for the `next`-th task created.
    pub fn new(next: u64) -> (r: TaskId)
        ensures
            r.0 == next,
    {
        TaskId(next)
    }
}

} // verus!
