//! Failures of the coordination layer.

use vstd::prelude::*;
use crate::types::{SimulationShortID, TaskID, WorkerIndex};

verus! {

/// What can go wrong while the pool coordinates tasks.
#[derive(Clone, Copy, Debug, PartialEq, Eq, Structural)]
pub enum Error {
    /// A task was submitted for a simulation run that has no worker allocation.
    MissingSimulationRun(SimulationShortID),
    /// A task asked for a number of partitions that the run's allocation cannot serve.
    InvalidDistribution { partitions: usize, workers: usize },
    /// Splitting gave a different number of sub-tasks than of sub-stores.
    DistributionMismatch { tasks: usize, stores: usize },
    /// A task was submitted under an identifier that is still in flight.
    DuplicateTask(TaskID),
    /// A message was addressed to a worker that the pool has no handle for.
    MissingWorker(WorkerIndex),
}

} // verus!
