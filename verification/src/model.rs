//! The pool as plain values: its state, and what each kind of event does to it.

use vstd::prelude::*;
use crate::comms::{
    broadcast, dispatch, TaskCompletionView, WorkerPoolToExpCtlMsgView,
    WorkerPoolToWorkerMsgView, WorkerToWorkerPoolMsgView, WrappedTaskView,
};
use crate::distribution::plan;
use crate::error::Error;
use crate::pending::{record_in, status_in, PendingTaskView, ReplyStatusView, TaskOutcome};
use crate::runs::distinct_workers;
use crate::task::WorkerTaskView;
use crate::types::{SimulationShortID, TaskID, Worker, WorkerIndex};

verus! {

/// Where the pool is in its life.
#[derive(Clone, Copy, Debug, PartialEq, Eq, Structural)]
pub enum PoolState {
    /// Events are served.
    Running,
    /// A kill was asked for; the pool waits for its workers to confirm that they shut down.
    Draining,
    /// The pool is done.
    Stopped,
}

/// The state of the pool, as plain values. The four lists at the end are what the pool has
/// put out: they only grow while events are handled.
pub struct PoolView {
    pub state: PoolState,
    pub num_workers: usize,
    /// The workers allocated to each simulation run.
    pub runs: Map<SimulationShortID, Seq<Worker>>,
    /// The tasks in flight.
    pub tasks: Map<TaskID, PendingTaskView>,
    /// The requests to cancel that wait to be polled.
    pub cancel_requests: Seq<TaskID>,
    /// The workers that confirmed their shutdown since the kill.
    pub stopped_workers: Seq<WorkerIndex>,
    /// The messages sent to workers.
    pub to_workers: Seq<(WorkerIndex, WorkerPoolToWorkerMsgView)>,
    /// The messages passed up to the experiment controller.
    pub to_experiment: Seq<(Option<SimulationShortID>, WorkerPoolToExpCtlMsgView)>,
    /// The terminal results handed to the originators of tasks.
    pub delivered: Seq<TaskCompletionView>,
    /// How often the kill requester was told that the shutdown is complete.
    pub kill_confirmations: nat,
}

/// What handling an event leads to: the state after it, and whether it went well.
pub struct Step {
    pub next: PoolView,
    pub result: Result<(), Error>,
}

/// The messages that hand out the (sub-)tasks `triples` of the run `sim_id`.
pub open spec fn task_batch(
    sim_id: SimulationShortID,
    triples: Seq<(Worker, WorkerTaskView)>,
) -> Seq<(WorkerIndex, WorkerPoolToWorkerMsgView)> {
    Seq::new(
        triples.len(),
        |k: int| (triples[k].0.index, WorkerPoolToWorkerMsgView::task(sim_id, triples[k].1)),
    )
}

/// The messages that ask each of `targets` to stop working on `task_id`.
pub open spec fn cancel_messages(task_id: TaskID, targets: Seq<Worker>) -> Seq<
    (WorkerIndex, WorkerPoolToWorkerMsgView),
> {
    Seq::new(
        targets.len(),
        |k: int| (targets[k].index, WorkerPoolToWorkerMsgView::cancel_task(task_id)),
    )
}

/// The messages that a request to cancel `task_id` leads to: one to each worker that holds
/// a part of the task, none where the task is not in flight.
pub open spec fn cancel_messages_for(tasks: Map<TaskID, PendingTaskView>, task_id: TaskID) -> Seq<
    (WorkerIndex, WorkerPoolToWorkerMsgView),
> {
    if tasks.contains_key(task_id) {
        cancel_messages(task_id, tasks[task_id].distribution_controller.cancel_targets())
    } else {
        Seq::empty()
    }
}

/// The messages that the requests to cancel `task_ids` lead to, request by request.
pub open spec fn cancel_batch(tasks: Map<TaskID, PendingTaskView>, task_ids: Seq<TaskID>) -> Seq<
    (WorkerIndex, WorkerPoolToWorkerMsgView),
>
    decreases task_ids.len(),
{
    if task_ids.len() == 0 {
        Seq::empty()
    } else {
        cancel_batch(tasks, task_ids.drop_last()) + cancel_messages_for(tasks, task_ids.last())
    }
}

impl PoolView {
    /// A pool of `num_workers` workers before its first event.
    pub open spec fn initial(
        num_workers: usize,
        to_experiment: Seq<(Option<SimulationShortID>, WorkerPoolToExpCtlMsgView)>,
    ) -> PoolView {
        PoolView {
            state: PoolState::Running,
            num_workers,
            runs: Map::empty(),
            tasks: Map::empty(),
            cancel_requests: Seq::empty(),
            stopped_workers: Seq::empty(),
            to_workers: Seq::empty(),
            to_experiment,
            delivered: Seq::empty(),
            kill_confirmations: 0,
        }
    }

    /// What holds of every state that the pool can be in: allocations are ordered sets, the
    /// workers that confirmed their shutdown are workers of the pool and none is counted
    /// twice, and the kill requester is told once, when the pool stops after a kill.
    pub open spec fn wf(self) -> bool {
        &&& forall|sim_id: SimulationShortID| #[trigger]
            self.runs.contains_key(sim_id) ==> self.runs[sim_id].len() > 0 && distinct_workers(
                self.runs[sim_id],
            )
        &&& forall|i: int|
            0 <= i < self.stopped_workers.len() ==> (#[trigger] self.stopped_workers[i])
                < self.num_workers
        &&& forall|i: int, j: int|
            0 <= i < j < self.stopped_workers.len() ==> self.stopped_workers[i]
                != self.stopped_workers[j]
        &&& self.state == PoolState::Running ==> self.stopped_workers.len() == 0
        &&& self.state == PoolState::Draining ==> self.stopped_workers.len() < self.num_workers
        &&& self.state != PoolState::Stopped ==> self.kill_confirmations == 0
        &&& self.kill_confirmations <= 1
    }

    /// A task is submitted for the run `sim_id`; `chosen` is the worker drawn for it in case
    /// it is not distributed. The task is planned, put on record and handed out, in that
    /// order, and the first step that fails ends the handling.
    pub open spec fn submit(
        self,
        sim_id: SimulationShortID,
        task: WrappedTaskView,
        chosen: Worker,
    ) -> Step {
        if self.state != PoolState::Running {
            Step { next: self, result: Ok(()) }
        } else if !self.runs.contains_key(sim_id) {
            Step { next: self, result: Err(Error::MissingSimulationRun(sim_id)) }
        } else {
            match plan(self.runs[sim_id], chosen, task.task_id, task.shared_store, task.inner) {
                Err(e) => Step { next: self, result: Err(e) },
                Ok((triples, controller)) => if self.tasks.contains_key(task.task_id) {
                    Step { next: self, result: Err(Error::DuplicateTask(task.task_id)) }
                } else {
                    let sent = dispatch(
                        self.num_workers,
                        self.to_workers,
                        task_batch(sim_id, triples),
                    );
                    Step {
                        next: PoolView {
                            tasks: self.tasks.insert(
                                task.task_id,
                                PendingTaskView {
                                    task_id: task.task_id,
                                    comms: task.comms,
                                    distribution_controller: controller,
                                },
                            ),
                            to_workers: sent.0,
                            ..self
                        },
                        result: sent.1,
                    }
                },
            }
        }
    }

    /// True when `next` and `result` are what submitting `task` leads to with the worker
    /// `chosen`, and `chosen` is a worker of the run's allocation where the run has one.
    pub open spec fn submits(
        self,
        sim_id: SimulationShortID,
        task: WrappedTaskView,
        chosen: Worker,
        next: PoolView,
        result: Result<(), Error>,
    ) -> bool {
        &&& self.runs.contains_key(sim_id) ==> self.runs[sim_id].contains(chosen)
        &&& self.submit(sim_id, task, chosen) == (Step { next, result })
    }

    /// The step pipeline asks every worker of the pool to synchronise.
    pub open spec fn sync(self, sim_id: SimulationShortID, payload: Seq<u8>) -> PoolView {
        if self.state != PoolState::Running {
            self
        } else {
            PoolView {
                to_workers: self.to_workers + broadcast(
                    self.num_workers as int,
                    WorkerPoolToWorkerMsgView::sync(sim_id, payload),
                ),
                ..self
            }
        }
    }

    /// The experiment layer announces the run `sim_id` with its allocation.
    pub open spec fn register(self, sim_id: SimulationShortID, allocation: Seq<Worker>) -> PoolView {
        if self.state != PoolState::Running {
            self
        } else {
            PoolView { runs: self.runs.insert(sim_id, allocation), ..self }
        }
    }

    /// The worker `worker_index` reports on the task `task_id`. A report for a task that is
    /// not in flight is dropped. A report that ends the task takes it out of the table and
    /// hands its result to the originator.
    pub open spec fn task_reply(
        self,
        worker_index: WorkerIndex,
        task_id: TaskID,
        outcome: TaskOutcome,
    ) -> PoolView {
        let worker = Worker { index: worker_index };
        match status_in(self.tasks, worker, task_id, outcome) {
            ReplyStatusView::UnknownTask => self,
            ReplyStatusView::Pending => PoolView {
                tasks: record_in(self.tasks, worker, task_id, outcome),
                ..self
            },
            ReplyStatusView::Terminal(result) => PoolView {
                tasks: self.tasks.remove(task_id),
                delivered: self.delivered.push(
                    TaskCompletionView { task_id, comms: self.tasks[task_id].comms, result },
                ),
                ..self
            },
        }
    }

    /// The worker `worker_index` sends `msg`. Errors and warnings are passed up as they are.
    pub open spec fn worker_msg(
        self,
        worker_index: WorkerIndex,
        msg: WorkerToWorkerPoolMsgView,
    ) -> PoolView {
        if self.state != PoolState::Running {
            self
        } else {
            match msg {
                WorkerToWorkerPoolMsgView::TaskResultOrCancelled { task_id, payload } => {
                    self.task_reply(worker_index, task_id, payload)
                },
                WorkerToWorkerPoolMsgView::RunnerErrors(errors) => PoolView {
                    to_experiment: self.to_experiment.push(
                        (None, WorkerPoolToExpCtlMsgView::RunnerErrors(errors)),
                    ),
                    ..self
                },
                WorkerToWorkerPoolMsgView::RunnerWarnings(warnings) => PoolView {
                    to_experiment: self.to_experiment.push(
                        (None, WorkerPoolToExpCtlMsgView::RunnerWarnings(warnings)),
                    ),
                    ..self
                },
            }
        }
    }

    /// An originator asks to cancel the task `task_id`: the request waits for the next poll.
    pub open spec fn request_cancel(self, task_id: TaskID) -> PoolView {
        PoolView { cancel_requests: self.cancel_requests.push(task_id), ..self }
    }

    /// The requests that wait are taken out.
    pub open spec fn polled(self) -> PoolView {
        PoolView { cancel_requests: Seq::empty(), ..self }
    }

    /// The polled requests to cancel `task_ids` are passed on to the workers concerned. No
    /// task leaves the table here.
    pub open spec fn cancel(self, task_ids: Seq<TaskID>) -> Step {
        if self.state != PoolState::Running {
            Step { next: self, result: Ok(()) }
        } else {
            let sent = dispatch(
                self.num_workers,
                self.to_workers,
                cancel_batch(self.tasks, task_ids),
            );
            Step { next: PoolView { to_workers: sent.0, ..self }, result: sent.1 }
        }
    }

    /// A kill is asked for: every worker is told, and the pool waits for their
    /// confirmations. A pool without workers has nothing to wait for.
    pub open spec fn kill(self) -> PoolView {
        if self.state != PoolState::Running {
            self
        } else {
            let to_workers = self.to_workers + broadcast(
                self.num_workers as int,
                WorkerPoolToWorkerMsgView::kill(),
            );
            if self.num_workers == 0 {
                PoolView {
                    state: PoolState::Stopped,
                    to_workers,
                    kill_confirmations: self.kill_confirmations + 1,
                    ..self
                }
            } else {
                PoolView { state: PoolState::Draining, to_workers, ..self }
            }
        }
    }

    /// The worker `worker_index` confirms that it shut down. With the last confirmation the
    /// kill requester is told and the pool stops.
    pub open spec fn worker_stopped(self, worker_index: WorkerIndex) -> PoolView {
        if self.state != PoolState::Draining || worker_index >= self.num_workers
            || self.stopped_workers.contains(worker_index) {
            self
        } else if self.stopped_workers.len() + 1 == self.num_workers {
            PoolView {
                state: PoolState::Stopped,
                stopped_workers: self.stopped_workers.push(worker_index),
                kill_confirmations: self.kill_confirmations + 1,
                ..self
            }
        } else {
            PoolView { stopped_workers: self.stopped_workers.push(worker_index), ..self }
        }
    }

    /// The requests to cancel that wait are polled and passed on. A pool that is no longer
    /// running leaves them where they are.
    pub open spec fn cancel_check(self) -> Step {
        if self.state != PoolState::Running {
            Step { next: self, result: Ok(()) }
        } else {
            self.polled().cancel(self.cancel_requests)
        }
    }

    /// Every worker handle has come to its end. Before a kill the pool just stops; after
    /// one there is no confirmation left to wait for.
    pub open spec fn workers_finished(self) -> PoolView {
        match self.state {
            PoolState::Running => PoolView { state: PoolState::Stopped, ..self },
            PoolState::Draining => PoolView {
                state: PoolState::Stopped,
                kill_confirmations: self.kill_confirmations + 1,
                ..self
            },
            PoolState::Stopped => self,
        }
    }
}

/// What can happen to the pool, as plain values.
pub enum EventView {
    /// The step pipeline submits a task; `chosen` is the worker drawn for it.
    Submit { sim_id: SimulationShortID, task: WrappedTaskView, chosen: Worker },
    /// The step pipeline asks all workers to synchronise.
    Sync { sim_id: SimulationShortID, payload: Seq<u8> },
    /// The experiment layer announces a run.
    Register { sim_id: SimulationShortID, allocation: Seq<Worker> },
    /// A worker sends a message.
    WorkerMsg { worker_index: WorkerIndex, msg: WorkerToWorkerPoolMsgView },
    /// An originator asks to cancel a task.
    RequestCancel { task_id: TaskID },
    /// The requests to cancel are polled.
    CancelCheck,
    /// A kill is asked for.
    Kill,
    /// A worker confirms that it shut down.
    WorkerStopped { worker_index: WorkerIndex },
    /// All worker handles have come to their end.
    WorkersFinished,
}

impl EventView {
    /// An event is in order when the allocation that it announces, if it announces one, is
    /// an ordered set.
    pub open spec fn wf(self) -> bool {
        self matches EventView::Register { allocation, .. } ==> allocation.len() > 0
            && distinct_workers(allocation)
    }

    /// True when the event submits a task under the identifier `task_id`.
    pub open spec fn submits(self, task_id: TaskID) -> bool {
        self matches EventView::Submit { task, .. } && task.task_id == task_id
    }
}

impl PoolView {
    /// What handling `event` leads to.
    pub open spec fn step(self, event: EventView) -> Step {
        match event {
            EventView::Submit { sim_id, task, chosen } => self.submit(sim_id, task, chosen),
            EventView::Sync { sim_id, payload } => Step {
                next: self.sync(sim_id, payload),
                result: Ok(()),
            },
            EventView::Register { sim_id, allocation } => Step {
                next: self.register(sim_id, allocation),
                result: Ok(()),
            },
            EventView::WorkerMsg { worker_index, msg } => Step {
                next: self.worker_msg(worker_index, msg),
                result: Ok(()),
            },
            EventView::RequestCancel { task_id } => Step {
                next: self.request_cancel(task_id),
                result: Ok(()),
            },
            EventView::CancelCheck => self.cancel_check(),
            EventView::Kill => Step { next: self.kill(), result: Ok(()) },
            EventView::WorkerStopped { worker_index } => Step {
                next: self.worker_stopped(worker_index),
                result: Ok(()),
            },
            EventView::WorkersFinished => Step { next: self.workers_finished(), result: Ok(()) },
        }
    }

    /// True when `next` and `result` are what handling `event` leads to, and the worker that
    /// a submission names is one of the run's allocation where the run has one.
    pub open spec fn handles(self, event: EventView, next: PoolView, result: Result<(), Error>) -> bool {
        &&& self.step(event) == (Step { next, result })
        &&& event matches EventView::Submit { sim_id, chosen, .. } ==> (self.runs.contains_key(
            sim_id,
        ) ==> self.runs[sim_id].contains(chosen))
    }
}

/// The state of the pool after the events `events`, handled one after the other whatever
/// their results.
pub open spec fn run(start: PoolView, events: Seq<EventView>) -> PoolView
    decreases events.len(),
{
    if events.len() == 0 {
        start
    } else {
        run(start, events.drop_last()).step(events.last()).next
    }
}

} // verus!
