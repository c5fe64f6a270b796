//! The workers allocated to each simulation run.

use std::collections::HashMap;
use vstd::prelude::*;
use crate::error::Error;
use crate::types::{SimulationShortID, Worker};

verus! {

broadcast use vstd::std_specs::hash::group_hash_axioms;

/// True exactly when no worker occurs twice in `workers`.
pub open spec fn distinct_workers(workers: Seq<Worker>) -> bool {
    forall|i: int, j: int| 0 <= i < j < workers.len() ==> workers[i] != workers[j]
}

/// The ordered set of workers assigned to one simulation run.
#[derive(Debug, PartialEq, Eq)]
pub struct WorkerAllocation {
    workers: Vec<Worker>,
}

impl View for WorkerAllocation {
    type V = Seq<Worker>;

    closed spec fn view(&self) -> Seq<Worker> {
        self.workers@
    }
}

impl WorkerAllocation {
    /// An allocation is an ordered set: it names at least one worker and none twice.
    pub open spec fn wf(&self) -> bool {
        &&& self@.len() > 0
        &&& distinct_workers(self@)
    }

    #[verifier::type_invariant]
    spec fn ordered_set(self) -> bool {
        self.wf()
    }

    /// Makes an allocation of `workers`, in their order. There is none for an empty list
    /// nor for one that names a worker twice.
    pub fn new(workers: Vec<Worker>) -> (allocation: Option<WorkerAllocation>)
        ensures
            allocation is Some <==> workers@.len() > 0 && distinct_workers(workers@),
            allocation matches Some(a) ==> a@ == workers@ && a.wf(),
    {
        if workers.len() == 0 {
            return None;
        }
        let mut j: usize = 1;
        while j < workers.len()
            invariant
                1 <= j <= workers.len(),
                forall|a: int, b: int| 0 <= a < b < j ==> workers@[a] != workers@[b],
            decreases workers.len() - j,
        {
            let mut i: usize = 0;
            while i < j
                invariant
                    i <= j < workers.len(),
                    forall|a: int| 0 <= a < i ==> workers@[a] != workers@[j as int],
                decreases j - i,
            {
                if workers[i] == workers[j] {
                    return None;
                }
                i += 1;
            }
            j += 1;
        }
        Some(WorkerAllocation { workers })
    }

    /// The number of workers in the allocation.
    pub fn len(&self) -> (n: usize)
        ensures
            n == self@.len(),
            self.wf(),
    {
        proof {
            use_type_invariant(self);
        }
        self.workers.len()
    }

    /// The worker at position `position` of the allocation, if there is one.
    pub fn get(&self, position: usize) -> (worker: Option<Worker>)
        ensures
            worker == if position < self@.len() {
                Some(self@[position as int])
            } else {
                None::<Worker>
            },
    {
        if position < self.workers.len() {
            Some(self.workers[position])
        } else {
            None
        }
    }

    /// The worker at position `position` of the allocation.
    pub(crate) fn worker_at(&self, position: usize) -> (worker: Worker)
        requires
            position < self@.len(),
        ensures
            worker == self@[position as int],
    {
        self.workers[position]
    }

    /// One worker of the allocation, drawn at random with equal chances for each.
    pub fn random_worker(&self) -> (worker: Worker)
        ensures
            self@.contains(worker),
    {
        proof {
            use_type_invariant(self);
        }
        let position = random_below(self.workers.len());
        self.workers[position]
    }

    /// The workers of the allocation, in order.
    pub fn workers(&self) -> (workers: Vec<Worker>)
        ensures
            workers@ == self@,
    {
        let mut out: Vec<Worker> = Vec::new();
        let mut i: usize = 0;
        while i < self.workers.len()
            invariant
                i <= self.workers.len(),
                out@ == self.workers@.subrange(0, i as int),
            decreases self.workers.len() - i,
        {
            out.push(self.workers[i]);
            assert(out@ == self.workers@.subrange(0, i + 1));
            i += 1;
        }
        assert(self.workers@.subrange(0, self.workers@.len() as int) == self.workers@);
        out
    }
}

/// Draws a number below `bound` from the thread's random number generator.
///
/// Calls `rand::Rng::gen_range` on `rand::thread_rng()` with the range `0..bound`. The
/// contract claims only that the number lies in that range, which is what `gen_range`
/// documents; `gen_range` panics on an empty range, so `bound` must be positive.
#[verifier::external_body]
fn random_below(bound: usize) -> (n: usize)
    requires
        bound > 0,
    ensures
        n < bound,
{
    rand::Rng::gen_range(&mut rand::thread_rng(), 0..bound)
}

/// The registry of simulation runs and the workers allocated to each.
pub struct SimulationRuns {
    inner: HashMap<SimulationShortID, WorkerAllocation>,
}

impl SimulationRuns {
    /// The allocations on record, by run.
    pub closed spec fn allocations(&self) -> Map<SimulationShortID, Seq<Worker>> {
        Map::new(
            |sim_id: SimulationShortID| self.inner@.contains_key(sim_id),
            |sim_id: SimulationShortID| self.inner@[sim_id]@,
        )
    }

    /// A registry without any run.
    pub fn new() -> (runs: SimulationRuns)
        ensures
            runs.allocations() == Map::<SimulationShortID, Seq<Worker>>::empty(),
    {
        let runs = SimulationRuns { inner: HashMap::new() };
        assert(runs.allocations() =~= Map::<SimulationShortID, Seq<Worker>>::empty());
        runs
    }

    /// Records `allocation` for the run `sim_id`, in place of an earlier one if there was one.
    pub fn push(&mut self, sim_id: SimulationShortID, allocation: WorkerAllocation)
        ensures
            allocation.wf(),
            final(self).allocations() == old(self).allocations().insert(sim_id, allocation@),
    {
        proof {
            use_type_invariant(&allocation);
        }
        self.inner.insert(sim_id, allocation);
        assert(self.allocations() =~= old(self).allocations().insert(sim_id, allocation@));
    }

    /// The allocation of the run `sim_id`; the error names the run where none is on record.
    pub fn get_worker_allocation(&self, sim_id: SimulationShortID) -> (res: Result<
        &WorkerAllocation,
        Error,
    >)
        ensures
            res is Ok <==> self.allocations().contains_key(sim_id),
            res matches Ok(allocation) ==> allocation@ == self.allocations()[sim_id]
                && allocation.wf(),
            res matches Err(e) ==> e == Error::MissingSimulationRun(sim_id),
    {
        match self.inner.get(&sim_id) {
            Some(allocation) => {
                proof {
                    use_type_invariant(allocation);
                }
                Ok(allocation)
            },
            None => Err(Error::MissingSimulationRun(sim_id)),
        }
    }
}

} // verus!
