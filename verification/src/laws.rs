//! What holds of the pool whatever happens to it: laws about the partition of a store,
//! about the reports on one task, and about the events of the whole pool.

use vstd::prelude::*;
use crate::comms::{
    lemma_dispatch_all, TaskCompletionView, WorkerToWorkerPoolMsgView, WrappedTaskView,
};
use crate::model::{run, task_batch, EventView, PoolState, PoolView};
use crate::counting::{lemma_all_below, lemma_distinct_within};
use crate::distribution::{distributed_plan, plan};
use crate::pending::{
    all_reported, has_reported, is_first_report, lemma_first_report_unique, merged_outcomes,
    report_of, status_in, DistributionControllerView, ReplyStatusView, TaskOutcome,
};
use crate::runs::distinct_workers;
use crate::task::{
    lemma_part_start, lemma_part_start_monotone, part_of, part_start, partition, TaskView,
};
use crate::types::{SimulationShortID, TaskID, Worker, WorkerIndex};

verus! {

/// The first `count` parts of `store`.
pub open spec fn first_parts(store: Seq<u64>, parts: int, count: int) -> Seq<Seq<u64>> {
    Seq::new(count as nat, |k: int| part_of(store, parts, k))
}

/// The first `count` parts, one after the other, are the store up to where part `count`
/// starts.
pub proof fn lemma_first_parts_flatten(store: Seq<u64>, parts: int, count: int)
    requires
        0 < parts,
        0 <= count <= parts,
    ensures
        first_parts(store, parts, count).flatten() == store.subrange(
            0,
            part_start(store.len() as int, parts, count),
        ),
    decreases count,
{
    let total = store.len() as int;
    if count == 0 {
        assert(first_parts(store, parts, 0) =~= Seq::<Seq<u64>>::empty());
        assert(store.subrange(0, 0) =~= Seq::<u64>::empty());
    } else {
        lemma_first_parts_flatten(store, parts, count - 1);
        lemma_part_start(total, parts, count - 1);
        lemma_part_start(total, parts, count);
        lemma_part_start_monotone(total, parts, count - 1, count);
        let before = first_parts(store, parts, count - 1);
        let part = part_of(store, parts, count - 1);
        assert(first_parts(store, parts, count) =~= before.push(part));
        before.lemma_flatten_push(part);
        assert(store.subrange(0, part_start(total, parts, count - 1)) + part =~= store.subrange(
            0,
            part_start(total, parts, count),
        ));
    }
}

/// The parts of a store cover it exactly: part `k` is the stretch of the store from the
/// start of part `k` to the start of part `k + 1`, the starts go from the first batch to
/// behind the last without ever going back, and the parts put one after the other are the
/// store itself. So no batch is in two parts, and none is left out.
pub proof fn lemma_partition_covers(store: Seq<u64>, parts: int)
    requires
        0 < parts,
    ensures
        partition(store, parts).len() == parts,
        part_start(store.len() as int, parts, 0) == 0,
        part_start(store.len() as int, parts, parts) == store.len(),
        forall|j: int, k: int|
            0 <= j <= k <= parts ==> part_start(store.len() as int, parts, j) <= part_start(
                store.len() as int,
                parts,
                k,
            ),
        partition(store, parts).flatten() == store,
{
    let total = store.len() as int;
    lemma_part_start(total, parts, parts);
    assert forall|j: int, k: int| 0 <= j <= k <= parts implies part_start(total, parts, j)
        <= part_start(total, parts, k) by {
        lemma_part_start_monotone(total, parts, j, k);
    }
    lemma_first_parts_flatten(store, parts, parts);
    assert(partition(store, parts) =~= first_parts(store, parts, parts));
    assert(store.subrange(0, total) =~= store);
}

/// The sub-stores that a distributed task hands out, in the order of the workers.
pub open spec fn planned_stores(
    workers: Seq<Worker>,
    parts: int,
    task_id: TaskID,
    store: Seq<u64>,
    task: TaskView,
) -> Seq<Seq<u64>> {
    Seq::new(
        parts as nat,
        |k: int| distributed_plan(workers, parts, task_id, store, task).0[k].1.shared_store,
    )
}

/// What a distributed task hands out covers its store exactly: the sub-stores of the
/// workers, put one after the other, are the store, and every worker with a part of the
/// data is on record as active.
pub proof fn lemma_distribution_covers(
    workers: Seq<Worker>,
    parts: int,
    task_id: TaskID,
    store: Seq<u64>,
    task: TaskView,
)
    requires
        0 < parts <= workers.len(),
    ensures
        planned_stores(workers, parts, task_id, store, task).flatten() == store,
        distributed_plan(workers, parts, task_id, store, task).1.cancel_targets()
            == workers.subrange(0, parts),
        forall|k: int|
            0 <= k < parts ==> (#[trigger] distributed_plan(
                workers,
                parts,
                task_id,
                store,
                task,
            ).0[k]).0 == workers[k],
{
    lemma_partition_covers(store, parts);
    assert(planned_stores(workers, parts, task_id, store, task) =~= partition(store, parts));
}

/// A further report changes nothing for a worker that has reported before: the first
/// report stays the first.
pub proof fn lemma_report_kept(
    received: Seq<(Worker, TaskOutcome)>,
    entry: (Worker, TaskOutcome),
    worker: Worker,
)
    requires
        has_reported(received, worker),
    ensures
        has_reported(received.push(entry), worker),
        report_of(received.push(entry), worker) == report_of(received, worker),
{
    let i = choose|i: int| is_first_report(received, worker, i);
    let j = choose|j: int| 0 <= j < received.len() && (#[trigger] received[j]).0 == worker;
    lemma_has_first_report(received, worker, j);
    lemma_first_report_unique(received, worker, i);
    let longer = received.push(entry);
    assert(is_first_report(longer, worker, i)) by {
        assert(longer[i] == received[i]);
        assert forall|k: int| 0 <= k < i implies (#[trigger] longer[k]).0 != worker by {
            assert(longer[k] == received[k]);
        }
    }
    lemma_first_report_unique(longer, worker, i);
}

/// Where a worker has a report at position `j`, it has a first report.
pub proof fn lemma_has_first_report(
    received: Seq<(Worker, TaskOutcome)>,
    worker: Worker,
    j: int,
)
    requires
        0 <= j < received.len(),
        received[j].0 == worker,
    ensures
        exists|i: int| is_first_report(received, worker, i),
    decreases j,
{
    if exists|k: int| 0 <= k < j && (#[trigger] received[k]).0 == worker {
        let k = choose|k: int| 0 <= k < j && (#[trigger] received[k]).0 == worker;
        lemma_has_first_report(received, worker, k);
    } else {
        assert(is_first_report(received, worker, j));
    }
}

/// The report of a worker that had not reported is its first.
pub proof fn lemma_report_added(
    received: Seq<(Worker, TaskOutcome)>,
    worker: Worker,
    outcome: TaskOutcome,
)
    requires
        !has_reported(received, worker),
    ensures
        has_reported(received.push((worker, outcome)), worker),
        report_of(received.push((worker, outcome)), worker) == Some(outcome),
{
    let longer = received.push((worker, outcome));
    let i = received.len() as int;
    assert(is_first_report(longer, worker, i)) by {
        assert(longer[i] == (worker, outcome));
        assert forall|k: int| 0 <= k < i implies (#[trigger] longer[k]).0 != worker by {
            assert(longer[k] == received[k]);
        }
    }
    lemma_first_report_unique(longer, worker, i);
}

/// The report of one worker changes nothing for another that had not reported.
pub proof fn lemma_report_of_other(
    received: Seq<(Worker, TaskOutcome)>,
    entry: (Worker, TaskOutcome),
    worker: Worker,
)
    requires
        !has_reported(received, worker),
        entry.0 != worker,
    ensures
        !has_reported(received.push(entry), worker),
{
    let longer = received.push(entry);
    if has_reported(longer, worker) {
        let j = choose|j: int| 0 <= j < longer.len() && (#[trigger] longer[j]).0 == worker;
        if j < received.len() {
            assert(received[j] == longer[j]);
        }
    }
}

/// The controller of a task that was just split among `active_workers`.
pub open spec fn fresh_controller(
    active_workers: Seq<Worker>,
    reference_task: TaskView,
) -> DistributionControllerView {
    DistributionControllerView::Distributed {
        active_workers,
        received_results: Seq::empty(),
        reference_task,
    }
}

/// The controller after the reports `replies` came in, in their order.
pub open spec fn after_replies(
    controller: DistributionControllerView,
    replies: Seq<(Worker, TaskOutcome)>,
) -> DistributionControllerView
    decreases replies.len(),
{
    if replies.len() == 0 {
        controller
    } else {
        after_replies(controller, replies.drop_last()).record(
            replies.last().0,
            replies.last().1,
        )
    }
}

/// The terminal results that the reports `replies` brought about, in their order.
pub open spec fn completions(
    controller: DistributionControllerView,
    replies: Seq<(Worker, TaskOutcome)>,
) -> Seq<Seq<TaskOutcome>>
    decreases replies.len(),
{
    if replies.len() == 0 {
        Seq::empty()
    } else {
        let earlier = completions(controller, replies.drop_last());
        match after_replies(controller, replies.drop_last()).completion(
            replies.last().0,
            replies.last().1,
        ) {
            Some(result) => earlier.push(result),
            None => earlier,
        }
    }
}

/// True when every worker of `active_workers` has a report among `replies`.
pub open spec fn all_replied(active_workers: Seq<Worker>, replies: Seq<(Worker, TaskOutcome)>) -> bool {
    all_reported(active_workers, replies)
}

/// What a split task has on record after any reports: for each of its workers the first
/// report that the worker sent, and nothing from anyone else.
pub proof fn lemma_record_after_replies(
    active_workers: Seq<Worker>,
    reference_task: TaskView,
    replies: Seq<(Worker, TaskOutcome)>,
)
    ensures
        after_replies(fresh_controller(active_workers, reference_task), replies) matches DistributionControllerView::Distributed {
            active_workers: active,
            received_results,
            reference_task: task,
        } && {
            &&& active == active_workers
            &&& task == reference_task
            &&& forall|worker: Worker|
                has_reported(received_results, worker) <==> active_workers.contains(worker)
                    && has_reported(replies, worker)
            &&& forall|worker: Worker|
                has_reported(received_results, worker) ==> report_of(received_results, worker)
                    == report_of(replies, worker)
        },
    decreases replies.len(),
{
    let fresh = fresh_controller(active_workers, reference_task);
    if replies.len() == 0 {
        let empty = Seq::<(Worker, TaskOutcome)>::empty();
        assert forall|worker: Worker| !has_reported(empty, worker) by {}
    } else {
        let earlier = replies.drop_last();
        let last = replies.last();
        lemma_record_after_replies(active_workers, reference_task, earlier);
        assert(replies =~= earlier.push(last));
        let before = after_replies(fresh, earlier);
        let after = after_replies(fresh, replies);
        assert(after == before.record(last.0, last.1));
        match before {
            DistributionControllerView::Distributed { received_results: old_received, .. } => {
                match after {
                    DistributionControllerView::Distributed {
                        received_results: new_received,
                        ..
                    } => {
                        assert forall|worker: Worker|
                            (has_reported(new_received, worker) <==> active_workers.contains(
                                worker,
                            ) && has_reported(replies, worker)) && (has_reported(
                                new_received,
                                worker,
                            ) ==> report_of(new_received, worker) == report_of(
                                replies,
                                worker,
                            )) by {
                            lemma_push_report(earlier, last, worker);
                            if before.accepts(last.0) {
                                assert(new_received == old_received.push(last));
                                lemma_push_report(old_received, last, worker);
                            } else {
                                assert(new_received == old_received);
                            }
                        }
                    },
                    _ => {},
                }
            },
            _ => {},
        }
    }
}

/// What one more entry does to the first report of each worker.
pub proof fn lemma_push_report(
    received: Seq<(Worker, TaskOutcome)>,
    entry: (Worker, TaskOutcome),
    worker: Worker,
)
    ensures
        has_reported(received.push(entry), worker) <==> has_reported(received, worker)
            || entry.0 == worker,
        has_reported(received, worker) ==> report_of(received.push(entry), worker) == report_of(
            received,
            worker,
        ),
        !has_reported(received, worker) && entry.0 == worker ==> report_of(
            received.push(entry),
            worker,
        ) == Some(entry.1),
{
    if has_reported(received, worker) {
        lemma_report_kept(received, entry, worker);
    } else if entry.0 == worker {
        lemma_report_added(received, worker, entry.1);
    } else {
        lemma_report_of_other(received, entry, worker);
    }
}

/// The result of a split task by its reports alone: for each partition the first report
/// that its worker sent.
pub open spec fn merged_replies(
    active_workers: Seq<Worker>,
    replies: Seq<(Worker, TaskOutcome)>,
) -> Seq<TaskOutcome> {
    merged_outcomes(active_workers, replies)
}

/// A split task ends once, however many reports arrive and in whatever order: no report
/// brings about a terminal result before every worker of the task has reported, the report
/// that completes the set brings about one, and none after it brings about another. The
/// result lists, by partition, the first report of each worker, be it a result or the
/// acknowledgement of a cancellation.
pub proof fn lemma_single_completion(
    active_workers: Seq<Worker>,
    reference_task: TaskView,
    replies: Seq<(Worker, TaskOutcome)>,
)
    requires
        active_workers.len() > 0,
    ensures
        completions(fresh_controller(active_workers, reference_task), replies) == if all_replied(
            active_workers,
            replies,
        ) {
            seq![merged_replies(active_workers, replies)]
        } else {
            Seq::<Seq<TaskOutcome>>::empty()
        },
    decreases replies.len(),
{
    let fresh = fresh_controller(active_workers, reference_task);
    if replies.len() == 0 {
        let k0 = 0int;
        assert(!has_reported(replies, active_workers[k0]));
    } else {
        let earlier = replies.drop_last();
        let last = replies.last();
        assert(replies =~= earlier.push(last));
        lemma_single_completion(active_workers, reference_task, earlier);
        lemma_record_after_replies(active_workers, reference_task, earlier);
        lemma_record_after_replies(active_workers, reference_task, replies);
        let before = after_replies(fresh, earlier);
        let after = after_replies(fresh, replies);
        assert(after == before.record(last.0, last.1));
        assert forall|k: int| 0 <= k < active_workers.len() implies active_workers.contains(
            #[trigger] active_workers[k],
        ) by {}
        assert forall|worker: Worker|
            (has_reported(replies, worker) <==> has_reported(earlier, worker) || last.0
                == worker) && (has_reported(earlier, worker) ==> report_of(replies, worker)
                == report_of(earlier, worker)) by {
            lemma_push_report(earlier, last, worker);
        }
        match (before, after) {
            (
                DistributionControllerView::Distributed { received_results: old_received, .. },
                DistributionControllerView::Distributed { received_results: new_received, .. },
            ) => {
                if all_replied(active_workers, earlier) {
                    assert(!before.accepts(last.0)) by {
                        if active_workers.contains(last.0) {
                            let k = choose|k: int|
                                0 <= k < active_workers.len() && active_workers[k] == last.0;
                            assert(has_reported(earlier, active_workers[k]));
                        }
                    }
                    assert(all_replied(active_workers, replies));
                    assert(merged_replies(active_workers, replies) =~= merged_replies(
                        active_workers,
                        earlier,
                    ));
                } else {
                    let k0 = choose|k: int|
                        0 <= k < active_workers.len() && !has_reported(
                            earlier,
                            #[trigger] active_workers[k],
                        );
                    if before.accepts(last.0) {
                        assert(new_received == old_received.push(last));
                        assert(all_reported(active_workers, new_received) <==> all_replied(
                            active_workers,
                            replies,
                        )) by {
                            if all_reported(active_workers, new_received) {
                                assert forall|k: int|
                                    0 <= k < active_workers.len() implies has_reported(
                                    replies,
                                    #[trigger] active_workers[k],
                                ) by {
                                    assert(has_reported(new_received, active_workers[k]));
                                }
                            }
                            if all_replied(active_workers, replies) {
                                assert forall|k: int|
                                    0 <= k < active_workers.len() implies has_reported(
                                    new_received,
                                    #[trigger] active_workers[k],
                                ) by {
                                    assert(has_reported(replies, active_workers[k]));
                                }
                            }
                        }
                        if all_reported(active_workers, new_received) {
                            assert(merged_outcomes(active_workers, new_received)
                                =~= merged_replies(active_workers, replies)) by {
                                assert forall|k: int|
                                    0 <= k < active_workers.len() implies report_of(
                                    new_received,
                                    active_workers[k],
                                ) == report_of(replies, active_workers[k]) by {
                                    assert(has_reported(new_received, active_workers[k]));
                                }
                            }
                            assert(Seq::<Seq<TaskOutcome>>::empty().push(
                                merged_replies(active_workers, replies),
                            ) =~= seq![merged_replies(active_workers, replies)]);
                        }
                    } else {
                        assert(!has_reported(replies, active_workers[k0])) by {
                            if last.0 == active_workers[k0] {
                                assert(active_workers.contains(last.0));
                                assert(has_reported(old_received, last.0));
                            }
                        }
                    }
                }
            },
            _ => {},
        }
    }
}

/// The result of a split task does not depend on the order in which the reports arrive:
/// two runs of reports in which every worker of the task sends the same first report bring
/// about the same terminal results.
pub proof fn lemma_merge_order(
    active_workers: Seq<Worker>,
    reference_task: TaskView,
    first: Seq<(Worker, TaskOutcome)>,
    second: Seq<(Worker, TaskOutcome)>,
)
    requires
        active_workers.len() > 0,
        forall|k: int|
            0 <= k < active_workers.len() ==> report_of(first, #[trigger] active_workers[k])
                == report_of(second, active_workers[k]),
    ensures
        completions(fresh_controller(active_workers, reference_task), first) == completions(
            fresh_controller(active_workers, reference_task),
            second,
        ),
{
    lemma_single_completion(active_workers, reference_task, first);
    lemma_single_completion(active_workers, reference_task, second);
    assert forall|k: int| 0 <= k < active_workers.len() implies (has_reported(
        first,
        #[trigger] active_workers[k],
    ) <==> has_reported(second, active_workers[k])) by {
        assert(report_of(first, active_workers[k]) == report_of(second, active_workers[k]));
    }
    if all_replied(active_workers, first) {
        assert(all_replied(active_workers, second));
        assert(merged_replies(active_workers, first) =~= merged_replies(active_workers, second));
    } else {
        let k0 = choose|k: int|
            0 <= k < active_workers.len() && !has_reported(first, #[trigger] active_workers[k]);
        assert(!has_reported(second, active_workers[k0]));
    }
}

/// True when the pool has a handle for every worker of `workers`.
pub open spec fn all_reachable(num_workers: usize, workers: Seq<Worker>) -> bool {
    forall|k: int| 0 <= k < workers.len() ==> (#[trigger] workers[k]).index < num_workers
}

/// A task that can be planned, is not in flight yet and goes to workers that the pool has
/// handles for is handed out whole: it is put on record, and behind what was sent before
/// goes one message for each part of the plan, in the order of the parts, each with its
/// (sub-)task and to the worker of its part. Nothing else changes, and nothing is
/// delivered yet.
pub proof fn lemma_submit_hands_out(
    state: PoolView,
    sim_id: SimulationShortID,
    task: WrappedTaskView,
    chosen: Worker,
)
    requires
        state.state == PoolState::Running,
        state.runs.contains_key(sim_id),
        state.runs[sim_id].contains(chosen),
        all_reachable(state.num_workers, state.runs[sim_id]),
        !state.tasks.contains_key(task.task_id),
        plan(state.runs[sim_id], chosen, task.task_id, task.shared_store, task.inner) is Ok,
    ensures
        ({
            let planned = plan(
                state.runs[sim_id],
                chosen,
                task.task_id,
                task.shared_store,
                task.inner,
            )->Ok_0;
            let step = state.submit(sim_id, task, chosen);
            &&& step.result == Ok::<(), crate::error::Error>(())
            &&& step.next.to_workers == state.to_workers + task_batch(sim_id, planned.0)
            &&& task_batch(sim_id, planned.0).len() == planned.0.len()
            &&& step.next.tasks.contains_key(task.task_id)
            &&& step.next.tasks[task.task_id].distribution_controller == planned.1
            &&& step.next.tasks[task.task_id].comms == task.comms
            &&& step.next.delivered == state.delivered
            &&& step.next.runs == state.runs
            &&& step.next.state == PoolState::Running
        }),
{
    let workers = state.runs[sim_id];
    let planned = plan(workers, chosen, task.task_id, task.shared_store, task.inner)->Ok_0;
    let batch = task_batch(sim_id, planned.0);
    assert forall|k: int| 0 <= k < batch.len() implies (#[trigger] batch[k]).0
        < state.num_workers by {
        match task.inner.distribution {
            crate::task::TaskDistributionConfig::Distributed(distribution) => {
                assert(planned.0[k].0 == workers[k]);
            },
            crate::task::TaskDistributionConfig::NotDistributed => {
                let at = choose|at: int| 0 <= at < workers.len() && workers[at] == chosen;
                assert(planned.0[k].0 == workers[at]);
            },
        }
    }
    lemma_dispatch_all(state.num_workers, state.to_workers, batch);
}

/// Handling an event that is in order leads from a state that the pool can be in to
/// another such state.
pub proof fn lemma_step_wf(state: PoolView, event: EventView)
    requires
        state.wf(),
        event.wf(),
    ensures
        state.step(event).next.wf(),
{
    let next = state.step(event).next;
    match event {
        EventView::Register { sim_id, allocation } => {
            assert forall|id: crate::types::SimulationShortID| #[trigger]
                next.runs.contains_key(id) implies next.runs[id].len() > 0 && distinct_workers(
                next.runs[id],
            ) by {
                if id != sim_id {
                    assert(state.runs.contains_key(id));
                }
            }
        },
        EventView::WorkerStopped { worker_index } => {
            if next != state {
                let stopped = next.stopped_workers;
                assert(stopped == state.stopped_workers.push(worker_index));
                assert forall|i: int, j: int| 0 <= i < j < stopped.len() implies stopped[i]
                    != stopped[j] by {
                    if j == stopped.len() - 1 {
                        assert(state.stopped_workers.contains(state.stopped_workers[i]));
                    }
                }
            }
        },
        _ => {},
    }
}

/// Whatever events come, if they are in order, the pool stays in a state that it can be in.
pub proof fn lemma_run_wf(start: PoolView, events: Seq<EventView>)
    requires
        start.wf(),
        forall|i: int| 0 <= i < events.len() ==> (#[trigger] events[i]).wf(),
    ensures
        run(start, events).wf(),
    decreases events.len(),
{
    if events.len() > 0 {
        lemma_run_wf(start, events.drop_last());
        lemma_step_wf(run(start, events.drop_last()), events.last());
    }
}

/// How many of the deliveries `delivered` are for the task `task_id`.
pub open spec fn deliveries_of(delivered: Seq<TaskCompletionView>, task_id: TaskID) -> nat
    decreases delivered.len(),
{
    if delivered.len() == 0 {
        0
    } else {
        deliveries_of(delivered.drop_last(), task_id) + if delivered.last().task_id == task_id {
            1nat
        } else {
            0nat
        }
    }
}

/// One if the task `task_id` is in flight, zero if not.
pub open spec fn in_flight(state: PoolView, task_id: TaskID) -> nat {
    if state.tasks.contains_key(task_id) {
        1
    } else {
        0
    }
}

/// One more delivery counts for the task it is for.
pub proof fn lemma_deliveries_push(
    delivered: Seq<TaskCompletionView>,
    completion: TaskCompletionView,
    task_id: TaskID,
)
    ensures
        deliveries_of(delivered.push(completion), task_id) == deliveries_of(delivered, task_id)
            + if completion.task_id == task_id {
            1nat
        } else {
            0nat
        },
{
    assert(delivered.push(completion).drop_last() =~= delivered);
}

/// No event but its own submission changes what a task adds up to: a task is in flight or
/// its result was delivered, and an event that takes it out of the table is the one that
/// delivers its result.
pub proof fn lemma_step_delivers_once(state: PoolView, event: EventView, task_id: TaskID)
    requires
        !event.submits(task_id),
    ensures
        deliveries_of(state.step(event).next.delivered, task_id) + in_flight(
            state.step(event).next,
            task_id,
        ) == deliveries_of(state.delivered, task_id) + in_flight(state, task_id),
{
    let next = state.step(event).next;
    match event {
        EventView::WorkerMsg { worker_index, msg } => {
            if state.state == PoolState::Running {
                match msg {
                    WorkerToWorkerPoolMsgView::TaskResultOrCancelled { task_id: id, payload } => {
                        let worker = Worker { index: worker_index };
                        match status_in(state.tasks, worker, id, payload) {
                            ReplyStatusView::Terminal(result) => {
                                lemma_deliveries_push(
                                    state.delivered,
                                    TaskCompletionView {
                                        task_id: id,
                                        comms: state.tasks[id].comms,
                                        result,
                                    },
                                    task_id,
                                );
                            },
                            _ => {},
                        }
                    },
                    _ => {},
                }
            }
        },
        _ => {},
    }
}

/// Every task ends at most once, and exactly once when it leaves the table: over any run of
/// events that does not submit the task anew, whatever reports and requests to cancel it
/// holds, the deliveries for the task grow by one if the task was in flight at the start
/// and is not at the end, and not at all otherwise.
pub proof fn lemma_delivered_once(start: PoolView, events: Seq<EventView>, task_id: TaskID)
    requires
        forall|i: int| 0 <= i < events.len() ==> !(#[trigger] events[i]).submits(task_id),
    ensures
        deliveries_of(run(start, events).delivered, task_id) + in_flight(
            run(start, events),
            task_id,
        ) == deliveries_of(start.delivered, task_id) + in_flight(start, task_id),
    decreases events.len(),
{
    if events.len() > 0 {
        lemma_delivered_once(start, events.drop_last(), task_id);
        lemma_step_delivers_once(run(start, events.drop_last()), events.last(), task_id);
    }
}

/// A request to cancel ends nothing by itself: polling and passing on requests leaves the
/// table of tasks and the deliveries as they were. A task ends when its workers answer.
pub proof fn lemma_cancel_ends_nothing(state: PoolView, task_id: TaskID, task_ids: Seq<TaskID>)
    ensures
        state.request_cancel(task_id).tasks == state.tasks,
        state.request_cancel(task_id).delivered == state.delivered,
        state.request_cancel(task_id).to_workers == state.to_workers,
        state.cancel(task_ids).next.tasks == state.tasks,
        state.cancel(task_ids).next.delivered == state.delivered,
        state.cancel_check().next.tasks == state.tasks,
        state.cancel_check().next.delivered == state.delivered,
{
}

/// Where a task that is with one worker is cancelled while the worker completes it, the
/// task ends with whichever of the two answers of the worker arrives first, and the other
/// answer finds no task: one terminal result, never two and never none.
pub proof fn lemma_cancel_race(
    state: PoolView,
    task_id: TaskID,
    worker: Worker,
    first: TaskOutcome,
    second: TaskOutcome,
)
    requires
        state.state == PoolState::Running,
        state.tasks.contains_key(task_id),
        state.tasks[task_id].distribution_controller == (DistributionControllerView::Single {
            active_worker: worker,
        }),
    ensures
        ({
            let after_first = state.task_reply(worker.index, task_id, first);
            let after_both = after_first.task_reply(worker.index, task_id, second);
            &&& after_first.tasks == state.tasks.remove(task_id)
            &&& after_first.delivered == state.delivered.push(
                TaskCompletionView {
                    task_id,
                    comms: state.tasks[task_id].comms,
                    result: seq![first],
                },
            )
            &&& after_both == after_first
        }),
{
    assert(Worker { index: worker.index } == worker);
}

/// A report for a task that is not in flight, be it late or astray, changes nothing: the
/// task does not come back, and nothing is delivered.
pub proof fn lemma_dangling_reply(
    state: PoolView,
    worker_index: WorkerIndex,
    task_id: TaskID,
    outcome: TaskOutcome,
)
    requires
        !state.tasks.contains_key(task_id),
    ensures
        state.worker_msg(
            worker_index,
            WorkerToWorkerPoolMsgView::TaskResultOrCancelled { task_id, payload: outcome },
        ) == state,
{
}

/// Once a kill was asked for, the pool serves none of its sources: whatever events come
/// after it, no task is delivered or taken out of the table, and the kill requester is told
/// exactly when the pool stops, which it does once.
pub proof fn lemma_kill_drains(start: PoolView, events: Seq<EventView>)
    requires
        start.wf(),
        start.state == PoolState::Running,
        forall|i: int| 0 <= i < events.len() ==> (#[trigger] events[i]).wf(),
    ensures
        ({
            let end = run(start.kill(), events);
            &&& end.wf()
            &&& end.state != PoolState::Running
            &&& end.delivered == start.delivered
            &&& end.tasks == start.tasks
            &&& end.to_experiment == start.to_experiment
            &&& end.to_workers == start.kill().to_workers
            &&& end.kill_confirmations == if end.state == PoolState::Stopped {
                1nat
            } else {
                0nat
            }
        }),
    decreases events.len(),
{
    let killed = start.kill();
    if events.len() == 0 {
        assert(killed.wf());
    } else {
        lemma_kill_drains(start, events.drop_last());
        let before = run(killed, events.drop_last());
        lemma_step_wf(before, events.last());
    }
}

/// After a kill the pool stops as soon as all worker handles have come to their end, and
/// stays stopped: the kill requester is told once.
pub proof fn lemma_kill_completes(
    start: PoolView,
    before: Seq<EventView>,
    after: Seq<EventView>,
)
    requires
        start.wf(),
        start.state == PoolState::Running,
        forall|i: int| 0 <= i < before.len() ==> (#[trigger] before[i]).wf(),
        forall|i: int| 0 <= i < after.len() ==> (#[trigger] after[i]).wf(),
    ensures
        ({
            let end = run(start.kill(), before.push(EventView::WorkersFinished) + after);
            &&& end.state == PoolState::Stopped
            &&& end.kill_confirmations == 1
        }),
    decreases after.len(),
{
    let killed = start.kill();
    let events = before.push(EventView::WorkersFinished) + after;
    if after.len() == 0 {
        assert(events =~= before.push(EventView::WorkersFinished));
        assert(events.drop_last() =~= before);
        lemma_kill_drains(start, before);
    } else {
        lemma_kill_completes(start, before, after.drop_last());
        assert(events.drop_last() =~= before.push(EventView::WorkersFinished)
            + after.drop_last());
        assert(events.last() == after.last());
        assert forall|i: int| 0 <= i < events.len() implies (#[trigger] events[i]).wf() by {
            if i < before.len() {
                assert(events[i] == before[i]);
            } else if i > before.len() {
                assert(events[i] == after[i - before.len() - 1]);
            }
        }
        lemma_kill_drains(start, events);
    }
}

/// The workers of the reports `received`, in their order.
pub open spec fn reporters(received: Seq<(Worker, TaskOutcome)>) -> Seq<Worker> {
    Seq::new(received.len(), |i: int| received[i].0)
}

/// A split task never has more reports on record than it has workers: each report on
/// record is from a worker of the task, and no worker has two.
pub proof fn lemma_received_bounded(
    active_workers: Seq<Worker>,
    reference_task: TaskView,
    replies: Seq<(Worker, TaskOutcome)>,
)
    ensures
        after_replies(fresh_controller(active_workers, reference_task), replies) matches DistributionControllerView::Distributed {
            received_results,
            ..
        } && {
            &&& reporters(received_results).no_duplicates()
            &&& forall|i: int|
                0 <= i < received_results.len() ==> active_workers.contains(
                    (#[trigger] received_results[i]).0,
                )
            &&& received_results.len() <= active_workers.len()
        },
    decreases replies.len(),
{
    let fresh = fresh_controller(active_workers, reference_task);
    if replies.len() == 0 {
        lemma_distinct_within(reporters(Seq::empty()), active_workers);
    } else {
        let last = replies.last();
        lemma_received_bounded(active_workers, reference_task, replies.drop_last());
        lemma_record_after_replies(active_workers, reference_task, replies.drop_last());
        let before = after_replies(fresh, replies.drop_last());
        match (before, before.record(last.0, last.1)) {
            (
                DistributionControllerView::Distributed { received_results: old_received, .. },
                DistributionControllerView::Distributed { received_results: new_received, .. },
            ) => {
                if before.accepts(last.0) {
                    assert(new_received == old_received.push(last));
                    assert forall|i: int, j: int|
                        0 <= i < new_received.len() && 0 <= j < new_received.len() && i
                            != j implies reporters(new_received)[i] != reporters(
                        new_received,
                    )[j] by {
                        if i < old_received.len() && j < old_received.len() {
                            assert(reporters(old_received)[i] != reporters(old_received)[j]);
                        } else if i < old_received.len() {
                            assert(old_received[i].0 != last.0);
                        } else {
                            assert(old_received[j].0 != last.0);
                        }
                    }
                    assert forall|i: int| 0 <= i < new_received.len() implies active_workers.contains(
                        (#[trigger] new_received[i]).0,
                    ) by {
                        if i < old_received.len() {
                            assert(new_received[i] == old_received[i]);
                        } else {
                            assert(new_received[i] == last);
                        }
                    }
                }
                assert forall|i: int| 0 <= i < new_received.len() implies active_workers.contains(
                    #[trigger] reporters(new_received)[i],
                ) by {
                    assert(active_workers.contains(new_received[i].0));
                }
                lemma_distinct_within(reporters(new_received), active_workers);
            },
            _ => {},
        }
    }
}

/// True when the worker `worker_index` confirms its shutdown somewhere in `events`.
pub open spec fn confirms(events: Seq<EventView>, worker_index: WorkerIndex) -> bool {
    exists|j: int|
        0 <= j < events.len() && #[trigger] events[j] == (EventView::WorkerStopped { worker_index })
}

/// While the pool waits after a kill, it has on record every worker of the pool that
/// confirmed its shutdown.
pub proof fn lemma_confirmations_kept(start: PoolView, events: Seq<EventView>)
    requires
        start.wf(),
        start.state == PoolState::Running,
        forall|i: int| 0 <= i < events.len() ==> (#[trigger] events[i]).wf(),
    ensures
        run(start.kill(), events).state == PoolState::Draining ==> forall|worker_index: WorkerIndex|
            worker_index < start.num_workers && confirms(events, worker_index) ==> run(
                start.kill(),
                events,
            ).stopped_workers.contains(worker_index),
    decreases events.len(),
{
    let killed = start.kill();
    let end = run(killed, events);
    if events.len() > 0 && end.state == PoolState::Draining {
        let earlier = events.drop_last();
        let last = events.last();
        let before = run(killed, earlier);
        lemma_confirmations_kept(start, earlier);
        lemma_kill_drains(start, earlier);
        lemma_num_workers_kept(killed, earlier);
        assert(before.state == PoolState::Draining);
        assert forall|worker_index: WorkerIndex|
            worker_index < start.num_workers && confirms(
                events,
                worker_index,
            ) implies end.stopped_workers.contains(worker_index) by {
            let j = choose|j: int|
                0 <= j < events.len() && #[trigger] events[j] == (EventView::WorkerStopped {
                    worker_index,
                });
            if j < earlier.len() {
                assert(earlier[j] == events[j]);
                assert(confirms(earlier, worker_index));
                let at = choose|at: int|
                    0 <= at < before.stopped_workers.len() && before.stopped_workers[at]
                        == worker_index;
                assert(end.stopped_workers[at] == worker_index);
            } else {
                assert(last == (EventView::WorkerStopped { worker_index }));
                if before.stopped_workers.contains(worker_index) {
                    assert(end == before);
                } else {
                    assert(end.stopped_workers == before.stopped_workers.push(worker_index));
                    assert(end.stopped_workers[before.stopped_workers.len() as int]
                        == worker_index);
                }
            }
        }
    } else if events.len() == 0 {
        assert forall|worker_index: WorkerIndex| !confirms(events, worker_index) by {}
    }
}

/// After a kill the pool stops, and tells the kill requester so, once, when every one of
/// its workers has confirmed its shutdown, whatever else arrives in between.
pub proof fn lemma_kill_confirmed_by_all(start: PoolView, events: Seq<EventView>)
    requires
        start.wf(),
        start.state == PoolState::Running,
        forall|i: int| 0 <= i < events.len() ==> (#[trigger] events[i]).wf(),
        forall|worker_index: WorkerIndex|
            worker_index < start.num_workers ==> confirms(events, worker_index),
    ensures
        run(start.kill(), events).state == PoolState::Stopped,
        run(start.kill(), events).kill_confirmations == 1,
{
    let end = run(start.kill(), events);
    lemma_kill_drains(start, events);
    lemma_confirmations_kept(start, events);
    if end.state == PoolState::Draining {
        assert(end.num_workers == start.num_workers) by {
            lemma_num_workers_kept(start.kill(), events);
        }
        assert forall|n: usize| n < end.num_workers implies end.stopped_workers.contains(n) by {
            assert(confirms(events, n));
        }
        lemma_all_below(end.stopped_workers, end.num_workers);
    }
}

/// The pool has the same number of workers all its life.
pub proof fn lemma_num_workers_kept(start: PoolView, events: Seq<EventView>)
    ensures
        run(start, events).num_workers == start.num_workers,
    decreases events.len(),
{
    if events.len() > 0 {
        lemma_num_workers_kept(start, events.drop_last());
    }
}

/// The reports `replies` on the task `task_id` as events of the pool.
pub open spec fn reply_events(task_id: TaskID, replies: Seq<(Worker, TaskOutcome)>) -> Seq<EventView> {
    Seq::new(
        replies.len(),
        |i: int|
            EventView::WorkerMsg {
                worker_index: replies[i].0.index,
                msg: WorkerToWorkerPoolMsgView::TaskResultOrCancelled {
                    task_id,
                    payload: replies[i].1,
                },
            },
    )
}

/// A split task from its submission to its end, in the pool: while some worker of the task
/// has not reported, the task stays in flight with the reports so far on record, and
/// nothing is delivered. Once all have reported, the task is out of the table and exactly
/// one result was delivered for it, to its originator: the first report of each worker, by
/// partition. Reports that arrive after that change nothing.
pub proof fn lemma_split_task_delivered_once(
    start: PoolView,
    task_id: TaskID,
    active_workers: Seq<Worker>,
    reference_task: TaskView,
    replies: Seq<(Worker, TaskOutcome)>,
)
    requires
        start.state == PoolState::Running,
        active_workers.len() > 0,
        start.tasks.contains_key(task_id),
        start.tasks[task_id].distribution_controller == fresh_controller(
            active_workers,
            reference_task,
        ),
    ensures
        ({
            let end = run(start, reply_events(task_id, replies));
            if all_replied(active_workers, replies) {
                &&& end == PoolView {
                    tasks: start.tasks.remove(task_id),
                    delivered: start.delivered.push(
                        TaskCompletionView {
                            task_id,
                            comms: start.tasks[task_id].comms,
                            result: merged_replies(active_workers, replies),
                        },
                    ),
                    ..start
                }
            } else {
                &&& end == PoolView {
                    tasks: start.tasks.insert(
                        task_id,
                        crate::pending::PendingTaskView {
                            distribution_controller: after_replies(
                                fresh_controller(active_workers, reference_task),
                                replies,
                            ),
                            ..start.tasks[task_id]
                        },
                    ),
                    ..start
                }
            }
        }),
    decreases replies.len(),
{
    let fresh = fresh_controller(active_workers, reference_task);
    let events = reply_events(task_id, replies);
    if replies.len() == 0 {
        assert(!has_reported(replies, active_workers[0]));
        assert(start.tasks.insert(task_id, start.tasks[task_id]) =~= start.tasks);
    } else {
        let earlier = replies.drop_last();
        let last = replies.last();
        assert(replies =~= earlier.push(last));
        assert(events.drop_last() =~= reply_events(task_id, earlier));
        assert(Worker { index: last.0.index } == last.0);
        lemma_split_task_delivered_once(start, task_id, active_workers, reference_task, earlier);
        lemma_single_completion(active_workers, reference_task, earlier);
        lemma_single_completion(active_workers, reference_task, replies);
        let before = run(start, reply_events(task_id, earlier));
        let end = run(start, events);
        assert(end == before.task_reply(last.0.index, task_id, last.1));
        if all_replied(active_workers, earlier) {
            assert(!before.tasks.contains_key(task_id));
            assert(end == before);
            let controller = after_replies(fresh, earlier);
            lemma_record_after_replies(active_workers, reference_task, earlier);
            assert(!controller.accepts(last.0)) by {
                if active_workers.contains(last.0) {
                    let k = choose|k: int|
                        0 <= k < active_workers.len() && active_workers[k] == last.0;
                    assert(has_reported(earlier, active_workers[k]));
                }
            }
            assert(completions(fresh, replies) == completions(fresh, earlier));
            assert(seq![merged_replies(active_workers, replies)][0] == seq![
                merged_replies(active_workers, earlier),
            ][0]);
        } else {
            let controller = after_replies(fresh, earlier);
            assert(before.tasks[task_id].distribution_controller == controller);
            match controller.completion(last.0, last.1) {
                Some(result) => {
                    assert(completions(fresh, replies) == Seq::<Seq<TaskOutcome>>::empty().push(
                        result,
                    ));
                    assert(completions(fresh, replies)[0] == result);
                    assert(end.tasks =~= start.tasks.remove(task_id));
                },
                None => {
                    assert(completions(fresh, replies) == Seq::<Seq<TaskOutcome>>::empty());
                    assert(end.tasks =~= start.tasks.insert(
                        task_id,
                        crate::pending::PendingTaskView {
                            distribution_controller: after_replies(fresh, replies),
                            ..start.tasks[task_id]
                        },
                    ));
                },
            }
        }
    }
}

} // verus!
