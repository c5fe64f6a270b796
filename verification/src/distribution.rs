//! How a task is handed out: whole to one worker, or in parts to several.

use vstd::prelude::*;
use crate::error::Error;
use crate::pending::{
    received_view, DistributionController, DistributionControllerView, TaskOutcome,
    TaskResultOrCancelled,
};
use crate::runs::WorkerAllocation;
use crate::task::{
    distributed_tables, part_of, sub_task, tables_view, tasks_view, StateBatchDistribution, Task,
    TaskDistributionConfig, TaskSharedStore, TaskView, WorkerTask, WorkerTaskView,
};
use crate::types::{TaskID, Worker};

verus! {

/// What a list of (worker, worker task) pairs holds, as plain values.
pub open spec fn triples_view(triples: Seq<(Worker, WorkerTask)>) -> Seq<(Worker, WorkerTaskView)> {
    Seq::new(triples.len(), |k: int| (triples[k].0, triples[k].1@))
}

/// What is handed out for a task, and the controller that keeps track of it.
pub type Plan = (Seq<(Worker, WorkerTaskView)>, DistributionControllerView);

/// Sub-tasks and sub-stores put together, pair by pair.
pub open spec fn zipped(
    task_id: TaskID,
    tasks: Seq<TaskView>,
    tables: Seq<(Worker, Seq<u64>)>,
) -> Seq<(Worker, WorkerTaskView)> {
    Seq::new(
        tasks.len(),
        |k: int|
            (tables[k].0, WorkerTaskView { task_id, task: tasks[k], shared_store: tables[k].1 }),
    )
}

/// A task that is not distributed goes whole, with the whole store, to the one worker
/// `chosen`.
pub open spec fn single_plan(
    chosen: Worker,
    task_id: TaskID,
    store: Seq<u64>,
    task: TaskView,
) -> Plan {
    (
        seq![(chosen, WorkerTaskView { task_id, task, shared_store: store })],
        DistributionControllerView::Single { active_worker: chosen },
    )
}

/// A task distributed into `parts` partitions: the worker at position `k` of `workers`
/// gets the sub-task with part `k` of the store, and the controller starts with those
/// workers, no report, and the task as it was before the split.
pub open spec fn distributed_plan(
    workers: Seq<Worker>,
    parts: int,
    task_id: TaskID,
    store: Seq<u64>,
    task: TaskView,
) -> Plan {
    (
        Seq::new(
            parts as nat,
            |k: int|
                (
                    workers[k],
                    WorkerTaskView {
                        task_id,
                        task: sub_task(task),
                        shared_store: part_of(store, parts, k),
                    },
                ),
        ),
        DistributionControllerView::Distributed {
            active_workers: workers.subrange(0, parts),
            received_results: Seq::<(Worker, TaskOutcome)>::empty(),
            reference_task: task,
        },
    )
}

/// What is handed out for `task` on a run with the allocation `workers`, where `chosen` is
/// the worker drawn for a task that is not distributed. A distributed task must ask for at
/// least one partition and for no more than there are workers.
pub open spec fn plan(
    workers: Seq<Worker>,
    chosen: Worker,
    task_id: TaskID,
    store: Seq<u64>,
    task: TaskView,
) -> Result<Plan, Error> {
    match task.distribution {
        TaskDistributionConfig::Distributed(distribution) => {
            if 0 < distribution.partitions <= workers.len() {
                Ok(distributed_plan(workers, distribution.partitions as int, task_id, store, task))
            } else {
                Err(
                    Error::InvalidDistribution {
                        partitions: distribution.partitions,
                        workers: workers.len() as usize,
                    },
                )
            }
        },
        TaskDistributionConfig::NotDistributed => Ok(single_plan(chosen, task_id, store, task)),
    }
}

/// What the outcome of planning holds, as plain values.
pub open spec fn plan_view(
    res: Result<(Vec<(Worker, WorkerTask)>, DistributionController), Error>,
) -> Result<Plan, Error> {
    match res {
        Ok((triples, controller)) => Ok((triples_view(triples@), controller@)),
        Err(e) => Err(e),
    }
}

/// Puts sub-tasks and sub-stores together, pair by pair, under the task's identifier. There
/// must be as many of the one as of the other.
pub fn zip_worker_tasks(
    task_id: TaskID,
    tasks: Vec<Task>,
    tables: Vec<(Worker, TaskSharedStore)>,
) -> (res: Result<Vec<(Worker, WorkerTask)>, Error>)
    ensures
        res is Ok <==> tasks@.len() == tables@.len(),
        res matches Ok(triples) ==> triples_view(triples@) == zipped(
            task_id,
            tasks_view(tasks@),
            tables_view(tables@),
        ),
        res matches Err(e) ==> e == (Error::DistributionMismatch {
            tasks: tasks@.len() as usize,
            stores: tables@.len() as usize,
        }),
{
    if tasks.len() != tables.len() {
        return Err(Error::DistributionMismatch { tasks: tasks.len(), stores: tables.len() });
    }
    let ghost all_tasks = tasks_view(tasks@);
    let ghost all_tables = tables_view(tables@);
    let mut rest_tasks = tasks;
    let mut rest_tables = tables;
    let mut triples: Vec<(Worker, WorkerTask)> = Vec::new();
    while rest_tasks.len() > 0
        invariant
            all_tasks.len() == all_tables.len(),
            rest_tasks@.len() == rest_tables@.len(),
            triples@.len() + rest_tasks@.len() == all_tasks.len(),
            forall|k: int|
                0 <= k < triples@.len() ==> (#[trigger] triples_view(triples@)[k]) == zipped(
                    task_id,
                    all_tasks,
                    all_tables,
                )[k],
            forall|k: int|
                0 <= k < rest_tasks@.len() ==> (#[trigger] rest_tasks@[k])@ == all_tasks[triples@.len()
                    + k],
            forall|k: int|
                0 <= k < rest_tables@.len() ==> (#[trigger] tables_view(rest_tables@)[k])
                    == all_tables[triples@.len() + k],
        decreases rest_tasks.len(),
    {
        let ghost before = triples@;
        let ghost tasks_before = rest_tasks@;
        let ghost tables_before = rest_tables@;
        let task = rest_tasks.remove(0);
        let (worker, shared_store) = rest_tables.remove(0);
        assert(tables_view(tables_before)[0] == all_tables[before.len() as int]);
        assert(tasks_before[0]@ == all_tasks[before.len() as int]);
        triples.push((worker, WorkerTask { task_id, task, shared_store }));
        assert forall|k: int| 0 <= k < triples@.len() implies (#[trigger] triples_view(
            triples@,
        )[k]) == zipped(task_id, all_tasks, all_tables)[k] by {
            if k < before.len() {
                assert(triples@[k] == before[k]);
                assert(triples_view(before)[k] == zipped(task_id, all_tasks, all_tables)[k]);
            }
        }
        assert forall|k: int| 0 <= k < rest_tasks@.len() implies (#[trigger] rest_tasks@[k])@
            == all_tasks[triples@.len() + k] by {
            assert(rest_tasks@[k] == tasks_before[k + 1]);
        }
        assert forall|k: int| 0 <= k < rest_tables@.len() implies (#[trigger] tables_view(
            rest_tables@,
        )[k]) == all_tables[triples@.len() + k] by {
            assert(rest_tables@[k] == tables_before[k + 1]);
            assert(tables_view(tables_before)[k + 1] == all_tables[before.len() + k + 1]);
        }
    }
    assert(triples_view(triples@) =~= zipped(task_id, all_tasks, all_tables));
    Ok(triples)
}

/// Hands a task that is not distributed, whole and with the whole store, to the worker
/// `chosen`.
pub fn single_worker_task(
    chosen: Worker,
    task_id: TaskID,
    shared_store: TaskSharedStore,
    task: Task,
) -> (res: (Vec<(Worker, WorkerTask)>, DistributionController))
    ensures
        (triples_view(res.0@), res.1@) == single_plan(chosen, task_id, shared_store@, task@),
{
    let triples = vec![(chosen, WorkerTask { task_id, task, shared_store })];
    assert(triples_view(triples@) =~= single_plan(chosen, task_id, shared_store@, task@).0);
    (triples, DistributionController::Single { active_worker: chosen })
}

/// Splits a distributed task among the first workers of `worker_list`, one partition each.
/// A request for no partition, or for more partitions than there are workers, is refused.
pub fn distributed_worker_tasks(
    worker_list: &WorkerAllocation,
    distribution: &StateBatchDistribution,
    task_id: TaskID,
    shared_store: TaskSharedStore,
    task: Task,
) -> (res: Result<(Vec<(Worker, WorkerTask)>, DistributionController), Error>)
    ensures
        plan_view(res) == if 0 < distribution.partitions <= worker_list@.len() {
            Ok::<Plan, Error>(
                distributed_plan(
                    worker_list@,
                    distribution.partitions as int,
                    task_id,
                    shared_store@,
                    task@,
                ),
            )
        } else {
            Err::<Plan, Error>(
                Error::InvalidDistribution {
                    partitions: distribution.partitions,
                    workers: worker_list@.len() as usize,
                },
            )
        },
{
    let ghost store = shared_store@;
    let parts = distribution.partitions;
    let (distributed_tables, split_config) = match shared_store.distribute(
        distribution,
        worker_list,
    ) {
        Ok(split) => split,
        Err(e) => {
            return Err(e);
        },
    };
    let tasks = task.split_task(&split_config);
    assert(tables_view(distributed_tables@).len() == parts);
    assert(tasks_view(tasks@).len() == parts);
    let mut active_workers: Vec<Worker> = Vec::new();
    let mut k: usize = 0;
    while k < distributed_tables.len()
        invariant
            k <= distributed_tables@.len(),
            distributed_tables@.len() == parts <= worker_list@.len(),
            tables_view(distributed_tables@) == crate::task::distributed_tables(
                store,
                worker_list@,
                parts as int,
                parts as int,
            ),
            active_workers@ == worker_list@.subrange(0, k as int),
        decreases distributed_tables@.len() - k,
    {
        active_workers.push(distributed_tables[k].0);
        assert(tables_view(distributed_tables@)[k as int].0 == worker_list@[k as int]);
        assert(active_workers@ == worker_list@.subrange(0, k + 1));
        k += 1;
    }
    let ghost sub_tasks = tasks_view(tasks@);
    let ghost tables = tables_view(distributed_tables@);
    match zip_worker_tasks(task_id, tasks, distributed_tables) {
        Ok(triples) => {
            assert(triples_view(triples@) =~= distributed_plan(
                worker_list@,
                parts as int,
                task_id,
                store,
                task@,
            ).0);
            let received_results: Vec<(Worker, TaskResultOrCancelled)> = Vec::new();
            assert(received_view(received_results@) =~= Seq::<(Worker, TaskOutcome)>::empty());
            let controller = DistributionController::Distributed {
                active_workers,
                received_results,
                reference_task: task,
            };
            assert(controller@ == distributed_plan(
                worker_list@,
                parts as int,
                task_id,
                store,
                task@,
            ).1);
            Ok((triples, controller))
        },
        Err(e) => Err(e),
    }
}

} // verus!
