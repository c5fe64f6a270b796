//! Identifiers shared by every part of the pool.

use vstd::prelude::*;

verus! {

/// Ordinal of a worker process inside the pool.
pub type WorkerIndex = usize;

/// Identifier of one logical unit of work.
pub type TaskID = u128;

/// Identifier of a running simulation.
pub type SimulationShortID = u32;

/// A worker of the pool, known to the rest of the system by its ordinal only.
#[derive(Clone, Copy, Debug, PartialEq, Eq, Structural)]
pub struct Worker {
    pub index: WorkerIndex,
}

impl Worker {
    /// The worker with the given ordinal.
    pub fn new(index: WorkerIndex) -> (worker: Worker)
        ensures
            worker == (Worker { index }),
    {
        Worker { index }
    }

    /// The ordinal of the worker.
    pub open spec fn spec_index(&self) -> WorkerIndex {
        self.index
    }

    /// The ordinal of the worker.
    #[verifier::when_used_as_spec(spec_index)]
    pub fn index(&self) -> (index: WorkerIndex)
        ensures
            index == self.spec_index(),
    {
        self.index
    }
}

} // verus!
