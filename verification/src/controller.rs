//! The controller of the pool: one handler for each kind of event.

use vstd::prelude::*;
use crate::comms::{
    batch_view, broadcast, upward_view, EngineToWorkerPoolMsg, EngineToWorkerPoolMsgPayload,
    EngineToWorkerPoolMsgPayloadView, ExperimentToWorkerPoolMsg, PackageId, TaskCompletion,
    TaskCompletionView, WorkerPoolCommsWithWorkers, WorkerPoolMsgSend, WorkerPoolToExpCtlMsg,
    WorkerPoolToWorkerMsg, WorkerPoolToWorkerMsgView, WorkerToWorkerPoolMsg, WrappedTask,
};
use crate::counting::lemma_distinct_below;
use crate::distribution::{
    distributed_worker_tasks, plan, plan_view, single_worker_task, triples_view, Plan,
};
use crate::error::Error;
use crate::model::{
    cancel_batch, cancel_messages, cancel_messages_for, task_batch, EventView, PoolState,
    PoolView,
};
use crate::pending::{DistributionController, PendingWorkerPoolTasks, ReplyStatus};
use crate::runs::SimulationRuns;
use crate::task::{Task, TaskDistributionConfig, TaskSharedStore, WorkerTask};
use crate::types::{SimulationShortID, TaskID, Worker, WorkerIndex};

verus! {

/// How the pool is set up.
#[derive(Clone, Copy, Debug, PartialEq, Eq, Structural)]
pub struct WorkerPoolConfig {
    pub num_workers: usize,
}

/// What can happen to the pool.
#[derive(Debug, PartialEq, Eq)]
pub enum Event {
    /// A message of the step pipeline for a simulation run.
    Sim(SimulationShortID, EngineToWorkerPoolMsg),
    /// A message of the experiment layer.
    Exp(ExperimentToWorkerPoolMsg),
    /// A message of a worker.
    Worker(WorkerIndex, WorkerToWorkerPoolMsg),
    /// An originator asks to cancel a task.
    RequestCancel(TaskID),
    /// It is time to poll the requests to cancel.
    CancelCheck,
    /// A kill is asked for.
    Kill,
    /// A worker confirms that it shut down.
    WorkerStopped(WorkerIndex),
    /// All worker handles have come to their end.
    WorkersFinished,
}

impl Event {
    /// The event as plain values, where `chosen` is the worker drawn for a submitted task.
    pub open spec fn view_with(self, chosen: Worker) -> EventView {
        match self {
            Event::Sim(sim_id, msg) => match msg@ {
                EngineToWorkerPoolMsgPayloadView::Task(task) => EventView::Submit {
                    sim_id,
                    task,
                    chosen,
                },
                EngineToWorkerPoolMsgPayloadView::Sync(payload) => EventView::Sync {
                    sim_id,
                    payload,
                },
            },
            Event::Exp(ExperimentToWorkerPoolMsg::NewSimulationRun(run)) => EventView::Register {
                sim_id: run.short_id,
                allocation: run.worker_allocation@,
            },
            Event::Worker(worker_index, msg) => EventView::WorkerMsg { worker_index, msg: msg@ },
            Event::RequestCancel(task_id) => EventView::RequestCancel { task_id },
            Event::CancelCheck => EventView::CancelCheck,
            Event::Kill => EventView::Kill,
            Event::WorkerStopped(worker_index) => EventView::WorkerStopped { worker_index },
            Event::WorkersFinished => EventView::WorkersFinished,
        }
    }
}

/// The controller of a pool of workers. It owns the registry of runs, the table of tasks
/// in flight and the handles of the workers, and changes them only while it handles an
/// event.
pub struct WorkerPoolController {
    comms: WorkerPoolCommsWithWorkers,
    simulation_runs: SimulationRuns,
    pending_tasks: PendingWorkerPoolTasks,
    top_send: WorkerPoolMsgSend,
    completed: Vec<TaskCompletion>,
    state: PoolState,
    stopped_workers: Vec<WorkerIndex>,
    kill_confirmations: usize,
}

/// What a list of deliveries holds, as plain values.
pub open spec fn completions_view(completed: Seq<TaskCompletion>) -> Seq<TaskCompletionView> {
    Seq::new(completed.len(), |i: int| completed[i]@)
}

impl View for WorkerPoolController {
    type V = PoolView;

    closed spec fn view(&self) -> PoolView {
        PoolView {
            state: self.state,
            num_workers: self.comms.num_workers(),
            runs: self.simulation_runs.allocations(),
            tasks: self.pending_tasks.tasks(),
            cancel_requests: self.pending_tasks.cancel_requests(),
            stopped_workers: self.stopped_workers@,
            to_workers: self.comms.sent(),
            to_experiment: self.top_send.sent(),
            delivered: completions_view(self.completed@),
            kill_confirmations: self.kill_confirmations as nat,
        }
    }
}

impl WorkerPoolController {
    /// The controller is in a state that the pool can be in.
    pub closed spec fn wf(&self) -> bool {
        self@.wf()
    }

    /// A controller that is well formed shows a well-formed state.
    pub proof fn lemma_wf(&self)
        requires
            self.wf(),
        ensures
            self@.wf(),
    {
    }

    /// A controller for a pool of `config.num_workers` workers that passes messages up
    /// through `worker_pool_controller_send`. It is running, and knows no run and no task.
    pub fn new_with_sender(
        config: &WorkerPoolConfig,
        worker_pool_controller_send: WorkerPoolMsgSend,
    ) -> (res: Result<WorkerPoolController, Error>)
        ensures
            res is Ok,
            res matches Ok(controller) ==> controller.wf() && controller@ == PoolView::initial(
                config.num_workers,
                worker_pool_controller_send.sent(),
            ),
    {
        let comms = WorkerPoolCommsWithWorkers::new_pool_comms(config.num_workers);
        let simulation_runs = SimulationRuns::new();
        let pending_tasks = PendingWorkerPoolTasks::new();
        let controller = WorkerPoolController {
            comms,
            simulation_runs,
            pending_tasks,
            top_send: worker_pool_controller_send,
            completed: Vec::new(),
            state: PoolState::Running,
            stopped_workers: Vec::new(),
            kill_confirmations: 0,
        };
        assert(completions_view(controller.completed@) =~= Seq::<TaskCompletionView>::empty());
        assert(controller@.stopped_workers =~= Seq::<WorkerIndex>::empty());
        Ok(controller)
    }

    /// Where the pool is in its life.
    pub fn state(&self) -> (state: PoolState)
        ensures
            state == self@.state,
    {
        self.state
    }

    /// The registry of simulation runs.
    pub fn sim_runs(&self) -> (runs: &SimulationRuns)
        ensures
            runs.allocations() == self@.runs,
    {
        &self.simulation_runs
    }

    /// Sends `msg` to the worker `index`. There is no handle for an index that is not below
    /// the number of workers: nothing is sent then, and the error names the index.
    pub fn send_to_worker(&mut self, index: WorkerIndex, msg: WorkerPoolToWorkerMsg) -> (res:
        Result<(), Error>)
        requires
            old(self).wf(),
        ensures
            final(self).wf(),
            res is Ok <==> index < old(self)@.num_workers,
            res is Err ==> res == Err::<(), Error>(Error::MissingWorker(index)),
            res is Err ==> final(self)@ == old(self)@,
            res is Ok ==> final(self)@ == (PoolView {
                to_workers: old(self)@.to_workers.push((index, msg@)),
                ..old(self)@
            }),
    {
        self.comms.send(index, msg)
    }

    /// Sends a copy of `msg` to every worker of the pool, from the first to the last.
    pub fn send_to_all_workers(&mut self, msg: WorkerPoolToWorkerMsg) -> (res: Result<(), Error>)
        requires
            old(self).wf(),
        ensures
            final(self).wf(),
            res == Ok::<(), Error>(()),
            final(self)@ == (PoolView {
                to_workers: old(self)@.to_workers + broadcast(
                    old(self)@.num_workers as int,
                    msg@,
                ),
                ..old(self)@
            }),
    {
        self.comms.send_all(msg)
    }

    /// Decides how the task `task` of the run `sim_id` is handed out. A task that is not
    /// distributed goes to a worker of the run's allocation drawn at random; a distributed
    /// one is split among the first workers of the allocation. Nothing changes in the pool.
    #[allow(unused_variables)]
    pub fn new_worker_tasks(
        &self,
        sim_id: SimulationShortID,
        task_id: TaskID,
        package_id: PackageId,
        shared_store: TaskSharedStore,
        task: Task,
    ) -> (res: Result<(Vec<(Worker, WorkerTask)>, DistributionController), Error>)
        requires
            self.wf(),
        ensures
            !self@.runs.contains_key(sim_id) ==> plan_view(res) == Err::<Plan, Error>(
                Error::MissingSimulationRun(sim_id),
            ),
            self@.runs.contains_key(sim_id) ==> exists|chosen: Worker|
                #[trigger] self@.runs[sim_id].contains(chosen) && plan_view(res) == plan(
                    self@.runs[sim_id],
                    chosen,
                    task_id,
                    shared_store@,
                    task@,
                ),
    {
        let worker_list = match self.simulation_runs.get_worker_allocation(sim_id) {
            Ok(worker_list) => worker_list,
            Err(e) => {
                return Err(e);
            },
        };
        match task.distribution() {
            TaskDistributionConfig::Distributed(distribution) => {
                let res = distributed_worker_tasks(
                    worker_list,
                    &distribution,
                    task_id,
                    shared_store,
                    task,
                );
                proof {
                    let first = worker_list@[0];
                    assert(worker_list@.contains(first));
                    assert(plan_view(res) == plan(
                        self@.runs[sim_id],
                        first,
                        task_id,
                        shared_store@,
                        task@,
                    ));
                }
                res
            },
            TaskDistributionConfig::NotDistributed => {
                let chosen = worker_list.random_worker();
                let (triples, controller) = single_worker_task(
                    chosen,
                    task_id,
                    shared_store,
                    task,
                );
                let res = Ok((triples, controller));
                proof {
                    assert(worker_list@.contains(chosen));
                    assert(plan_view(res) == plan(
                        self@.runs[sim_id],
                        chosen,
                        task_id,
                        shared_store@,
                        task@,
                    ));
                }
                res
            },
        }
    }

    /// Handles a message of the step pipeline for the run `sim_id`: a new task is planned,
    /// put on record and handed out; a request to synchronise goes to every worker of the
    /// pool. A pool that is no longer running leaves the message alone.
    pub fn handle_sim_msg(&mut self, sim_id: SimulationShortID, msg: EngineToWorkerPoolMsg) -> (res:
        Result<(), Error>)
        requires
            old(self).wf(),
        ensures
            final(self).wf(),
            msg@ matches EngineToWorkerPoolMsgPayloadView::Sync(payload) ==> res == Ok::<
                (),
                Error,
            >(()) && final(self)@ == old(self)@.sync(sim_id, payload),
            msg@ matches EngineToWorkerPoolMsgPayloadView::Task(task) ==> exists|chosen: Worker|
                #[trigger] old(self)@.submits(sim_id, task, chosen, final(self)@, res),
    {
        if self.state != PoolState::Running {
            proof {
                let w = if old(self)@.runs.contains_key(sim_id) {
                    old(self)@.runs[sim_id][0]
                } else {
                    Worker { index: 0 }
                };
                if old(self)@.runs.contains_key(sim_id) {
                    assert(old(self)@.runs[sim_id].contains(w));
                }
                if let EngineToWorkerPoolMsgPayloadView::Task(task) = msg@ {
                    assert(old(self)@.submits(sim_id, task, w, self@, Ok::<(), Error>(())));
                }
            }
            return Ok(());
        }
        match msg.payload {
            EngineToWorkerPoolMsgPayload::Task(task_msg) => {
                let ghost task_view = task_msg@;
                let WrappedTask { task_id, package_id, inner, comms, shared_store } = task_msg;
                let planned = self.new_worker_tasks(
                    sim_id,
                    task_id,
                    package_id,
                    shared_store,
                    inner,
                );
                let ghost chosen: Worker = if old(self)@.runs.contains_key(sim_id) {
                    choose|chosen: Worker|
                        #[trigger] old(self)@.runs[sim_id].contains(chosen) && plan_view(planned)
                            == plan(
                            old(self)@.runs[sim_id],
                            chosen,
                            task_id,
                            task_view.shared_store,
                            task_view.inner,
                        )
                } else {
                    Worker { index: 0 }
                };
                let (tasks, distribution_controller) = match planned {
                    Ok(planned) => planned,
                    Err(e) => {
                        assert(old(self)@.submits(
                            sim_id,
                            task_view,
                            chosen,
                            self@,
                            Err::<(), Error>(e),
                        ));
                        return Err(e);
                    },
                };
                match self.pending_tasks.insert(task_id, comms, distribution_controller) {
                    Ok(()) => {},
                    Err(e) => {
                        assert(old(self)@.submits(
                            sim_id,
                            task_view,
                            chosen,
                            self@,
                            Err::<(), Error>(e),
                        ));
                        return Err(e);
                    },
                }
                let mut batch: Vec<(WorkerIndex, WorkerPoolToWorkerMsg)> = Vec::new();
                let mut rest = tasks;
                let ghost triples = triples_view(tasks@);
                while rest.len() > 0
                    invariant
                        triples == triples_view(tasks@),
                        batch@.len() + rest@.len() == triples.len(),
                        forall|k: int|
                            0 <= k < batch@.len() ==> (#[trigger] batch_view(batch@)[k])
                                == task_batch(sim_id, triples)[k],
                        forall|k: int|
                            0 <= k < rest@.len() ==> (#[trigger] triples_view(rest@)[k])
                                == triples[batch@.len() + k],
                    decreases rest.len(),
                {
                    let ghost batch_before = batch@;
                    let ghost rest_before = rest@;
                    let (worker, task) = rest.remove(0);
                    assert(triples_view(rest_before)[0] == triples[batch_before.len() as int]);
                    batch.push((worker.index(), WorkerPoolToWorkerMsg::task(sim_id, task)));
                    assert forall|k: int| 0 <= k < batch@.len() implies (#[trigger] batch_view(
                        batch@,
                    )[k]) == task_batch(sim_id, triples)[k] by {
                        if k < batch_before.len() {
                            assert(batch@[k] == batch_before[k]);
                            assert(batch_view(batch_before)[k] == task_batch(sim_id, triples)[k]);
                        }
                    }
                    assert forall|k: int| 0 <= k < rest@.len() implies (#[trigger] triples_view(
                        rest@,
                    )[k]) == triples[batch@.len() + k] by {
                        assert(rest@[k] == rest_before[k + 1]);
                        assert(triples_view(rest_before)[k + 1] == triples[batch_before.len() + k
                            + 1]);
                    }
                }
                assert(batch_view(batch@) =~= task_batch(sim_id, triples));
                let res = self.comms.send_batch(batch);
                proof {
                    let step = old(self)@.submit(sim_id, task_view, chosen);
                    assert(self@ == step.next);
                    assert(res == step.result);
                    assert(old(self)@.submits(sim_id, task_view, chosen, self@, res));
                }
                res
            },
            EngineToWorkerPoolMsgPayload::Sync(payload) => {
                self.send_to_all_workers(WorkerPoolToWorkerMsg::sync(sim_id, payload))
            },
        }
    }

    /// Handles a message of the experiment layer: the allocation of a new simulation run is
    /// put on record, in place of an earlier one for the same run.
    pub fn handle_exp_msg(&mut self, msg: ExperimentToWorkerPoolMsg) -> (res: Result<(), Error>)
        requires
            old(self).wf(),
        ensures
            final(self).wf(),
            res == Ok::<(), Error>(()),
            msg matches ExperimentToWorkerPoolMsg::NewSimulationRun(run) && final(self)@ == old(self)@.register(run.short_id, run.worker_allocation@),
    {
        if self.state != PoolState::Running {
            return Ok(());
        }
        match msg {
            ExperimentToWorkerPoolMsg::NewSimulationRun(run) => {
                self.simulation_runs.push(run.short_id, run.worker_allocation);
            },
        }
        Ok(())
    }

    /// Handles a message of the worker `worker_index`. A report on a task goes into the
    /// table; where it ends the task, the task leaves the table and its result is handed to
    /// the originator. A report for a task that is not in flight is dropped. Errors and
    /// warnings are passed up as they are.
    pub fn handle_worker_msg(&mut self, worker_index: WorkerIndex, msg: WorkerToWorkerPoolMsg) -> (res:
        Result<(), Error>)
        requires
            old(self).wf(),
        ensures
            final(self).wf(),
            res == Ok::<(), Error>(()),
            final(self)@ == old(self)@.worker_msg(worker_index, msg@),
    {
        if self.state != PoolState::Running {
            return Ok(());
        }
        match msg {
            WorkerToWorkerPoolMsg::TaskResultOrCancelled(report) => {
                let task_id = report.task_id;
                let status = self.pending_tasks.record_reply(
                    Worker::new(worker_index),
                    task_id,
                    report.payload,
                );
                match status {
                    ReplyStatus::Terminal(result) => {
                        // The task has ended: it leaves the table, and its result goes to
                        // the originator.
                        if let Some(task) = self.pending_tasks.remove(task_id) {
                            let ghost before = completions_view(self.completed@);
                            let completion = TaskCompletion { task_id, comms: task.comms, result };
                            self.completed.push(completion);
                            assert(completions_view(self.completed@) =~= before.push(
                                completion@,
                            ));
                            assert(self@.tasks =~= old(self)@.tasks.remove(task_id));
                        }
                    },
                    ReplyStatus::Pending | ReplyStatus::UnknownTask => {},
                }
            },
            WorkerToWorkerPoolMsg::RunnerErrors(errors) => {
                self.top_send.send(None, WorkerPoolToExpCtlMsg::RunnerErrors(errors));
            },
            WorkerToWorkerPoolMsg::RunnerWarnings(warnings) => {
                self.top_send.send(None, WorkerPoolToExpCtlMsg::RunnerWarnings(warnings));
            },
        }
        Ok(())
    }

    /// Notes that an originator asks to cancel the task `task_id`. The request waits for the
    /// next poll; the table of tasks and the workers hear nothing of it yet.
    pub fn request_cancel(&mut self, task_id: TaskID)
        requires
            old(self).wf(),
        ensures
            final(self).wf(),
            final(self)@ == old(self)@.request_cancel(task_id),
    {
        self.pending_tasks.request_cancel(task_id);
    }

    /// The requests to cancel that came in since the last poll, oldest first. It never
    /// waits: where none came in, the batch is empty.
    pub fn poll_cancellations(&mut self) -> (task_ids: Vec<TaskID>)
        requires
            old(self).wf(),
        ensures
            final(self).wf(),
            task_ids@ == old(self)@.cancel_requests,
            final(self)@ == old(self)@.polled(),
    {
        self.pending_tasks.poll_cancellations()
    }

    /// Passes the polled requests to cancel `cancel_msgs` on: for each task that is in
    /// flight, every worker that holds a part of it is told to stop. No task leaves the table
    /// here; that happens when the workers have answered.
    pub fn handle_cancel_msgs(&mut self, cancel_msgs: Vec<TaskID>) -> (res: Result<(), Error>)
        requires
            old(self).wf(),
        ensures
            final(self).wf(),
            final(self)@ == old(self)@.cancel(cancel_msgs@).next,
            res == old(self)@.cancel(cancel_msgs@).result,
    {
        if self.state != PoolState::Running {
            return Ok(());
        }
        let mut batch: Vec<(WorkerIndex, WorkerPoolToWorkerMsg)> = Vec::new();
        let mut i: usize = 0;
        assert(cancel_msgs@.subrange(0, 0) =~= Seq::<TaskID>::empty());
        assert(batch_view(batch@) =~= Seq::<(WorkerIndex, WorkerPoolToWorkerMsgView)>::empty());
        while i < cancel_msgs.len()
            invariant
                i <= cancel_msgs.len(),
                self.wf(),
                self@ == old(self)@,
                batch_view(batch@) == cancel_batch(
                    self@.tasks,
                    cancel_msgs@.subrange(0, i as int),
                ),
            decreases cancel_msgs.len() - i,
        {
            let id = cancel_msgs[i];
            let ghost done = cancel_batch(self@.tasks, cancel_msgs@.subrange(0, i as int));
            assert(cancel_msgs@.subrange(0, i + 1).drop_last() =~= cancel_msgs@.subrange(
                0,
                i as int,
            ));
            assert(cancel_msgs@.subrange(0, i + 1).last() == id);
            match self.pending_tasks.cancel_targets(id) {
                Some(targets) => {
                    let mut k: usize = 0;
                    while k < targets.len()
                        invariant
                            k <= targets.len(),
                            batch_view(batch@) == done + cancel_messages(
                                id,
                                targets@.subrange(0, k as int),
                            ),
                        decreases targets.len() - k,
                    {
                        let ghost before = batch_view(batch@);
                        batch.push((targets[k].index(), WorkerPoolToWorkerMsg::cancel_task(id)));
                        assert(batch_view(batch@) =~= before.push(
                            (targets@[k as int].index, WorkerPoolToWorkerMsgView::cancel_task(id)),
                        ));
                        assert(batch_view(batch@) =~= done + cancel_messages(
                            id,
                            targets@.subrange(0, k + 1),
                        ));
                        k += 1;
                    }
                    assert(targets@.subrange(0, targets@.len() as int) == targets@);
                },
                None => {
                    assert(done + cancel_messages_for(self@.tasks, id) =~= done);
                },
            }
            i += 1;
        }
        assert(cancel_msgs@.subrange(0, cancel_msgs@.len() as int) == cancel_msgs@);
        let res = self.comms.send_batch(batch);
        res
    }

    /// Handles a request to kill the pool: every worker is told to shut down, and the pool
    /// waits for their confirmations. A pool without workers stops at once.
    pub fn handle_kill(&mut self) -> (res: Result<(), Error>)
        requires
            old(self).wf(),
        ensures
            final(self).wf(),
            res == Ok::<(), Error>(()),
            final(self)@ == old(self)@.kill(),
    {
        if self.state != PoolState::Running {
            return Ok(());
        }
        let res = self.comms.send_all(WorkerPoolToWorkerMsg::kill());
        if self.comms.worker_count() == 0 {
            self.state = PoolState::Stopped;
            self.kill_confirmations = self.kill_confirmations + 1;
        } else {
            self.state = PoolState::Draining;
        }
        res
    }

    /// Handles the confirmation of the worker `worker_index` that it shut down. With the
    /// last confirmation the kill requester is told, once, and the pool stops.
    pub fn handle_worker_stopped(&mut self, worker_index: WorkerIndex)
        requires
            old(self).wf(),
        ensures
            final(self).wf(),
            final(self)@ == old(self)@.worker_stopped(worker_index),
    {
        if self.state != PoolState::Draining || worker_index >= self.comms.worker_count() {
            return ;
        }
        let mut i: usize = 0;
        while i < self.stopped_workers.len()
            invariant
                i <= self.stopped_workers.len(),
                *self == *old(self),
                self.wf(),
                forall|j: int| 0 <= j < i ==> self.stopped_workers@[j] != worker_index,
            decreases self.stopped_workers.len() - i,
        {
            if self.stopped_workers[i] == worker_index {
                return ;
            }
            i += 1;
        }
        self.stopped_workers.push(worker_index);
        proof {
            lemma_distinct_below(self.stopped_workers@, self.comms.num_workers());
        }
        if self.stopped_workers.len() == self.comms.worker_count() {
            self.state = PoolState::Stopped;
            self.kill_confirmations = self.kill_confirmations + 1;
        }
    }

    /// Handles the end of all worker handles. Before a kill the pool just stops. After one
    /// there is no confirmation left to wait for: the kill requester is told and the pool
    /// stops.
    pub fn handle_workers_finished(&mut self)
        requires
            old(self).wf(),
        ensures
            final(self).wf(),
            final(self)@ == old(self)@.workers_finished(),
    {
        match self.state {
            PoolState::Running => {
                self.state = PoolState::Stopped;
            },
            PoolState::Draining => {
                self.state = PoolState::Stopped;
                self.kill_confirmations = self.kill_confirmations + 1;
            },
            PoolState::Stopped => {},
        }
    }

    /// Handles one event, whatever its kind: the one step that the pool takes each time one
    /// of its sources has something for it.
    pub fn handle_event(&mut self, event: Event) -> (res: Result<(), Error>)
        requires
            old(self).wf(),
        ensures
            final(self).wf(),
            exists|chosen: Worker| #[trigger]
                old(self)@.handles(event.view_with(chosen), final(self)@, res),
    {
        let ghost any = Worker { index: 0 };
        match event {
            Event::Sim(sim_id, msg) => {
                let ghost msg_view = msg@;
                let res = self.handle_sim_msg(sim_id, msg);
                proof {
                    match msg_view {
                        EngineToWorkerPoolMsgPayloadView::Task(task) => {
                            let chosen = choose|chosen: Worker| #[trigger]
                                old(self)@.submits(sim_id, task, chosen, self@, res);
                            assert(old(self)@.handles(event.view_with(chosen), self@, res));
                        },
                        EngineToWorkerPoolMsgPayloadView::Sync(payload) => {
                            assert(old(self)@.handles(event.view_with(any), self@, res));
                        },
                    }
                }
                res
            },
            Event::Exp(msg) => {
                let res = self.handle_exp_msg(msg);
                assert(old(self)@.handles(event.view_with(any), self@, res));
                res
            },
            Event::Worker(worker_index, msg) => {
                let res = self.handle_worker_msg(worker_index, msg);
                assert(old(self)@.handles(event.view_with(any), self@, res));
                res
            },
            Event::RequestCancel(task_id) => {
                self.request_cancel(task_id);
                assert(old(self)@.handles(event.view_with(any), self@, Ok::<(), Error>(())));
                Ok(())
            },
            Event::CancelCheck => {
                if self.state != PoolState::Running {
                    assert(old(self)@.handles(event.view_with(any), self@, Ok::<(), Error>(())));
                    return Ok(());
                }
                let task_ids = self.poll_cancellations();
                let res = self.handle_cancel_msgs(task_ids);
                assert(old(self)@.handles(event.view_with(any), self@, res));
                res
            },
            Event::Kill => {
                let res = self.handle_kill();
                assert(old(self)@.handles(event.view_with(any), self@, res));
                res
            },
            Event::WorkerStopped(worker_index) => {
                self.handle_worker_stopped(worker_index);
                assert(old(self)@.handles(event.view_with(any), self@, Ok::<(), Error>(())));
                Ok(())
            },
            Event::WorkersFinished => {
                self.handle_workers_finished();
                assert(old(self)@.handles(event.view_with(any), self@, Ok::<(), Error>(())));
                Ok(())
            },
        }
    }

    /// Takes out the messages for the workers that wait to be put on the wire.
    pub fn take_outgoing(&mut self) -> (batch: Vec<(WorkerIndex, WorkerPoolToWorkerMsg)>)
        requires
            old(self).wf(),
        ensures
            final(self).wf(),
            batch_view(batch@) == old(self)@.to_workers,
            final(self)@ == (PoolView { to_workers: Seq::empty(), ..old(self)@ }),
    {
        self.comms.take_outgoing()
    }

    /// Takes out the messages for the experiment controller that wait to be put on the wire.
    pub fn take_upward(&mut self) -> (batch: Vec<(Option<SimulationShortID>, WorkerPoolToExpCtlMsg)>)
        requires
            old(self).wf(),
        ensures
            final(self).wf(),
            upward_view(batch@) == old(self)@.to_experiment,
            final(self)@ == (PoolView { to_experiment: Seq::empty(), ..old(self)@ }),
    {
        self.top_send.take()
    }

    /// Takes out the terminal results that wait to be handed to their originators.
    pub fn take_completed(&mut self) -> (batch: Vec<TaskCompletion>)
        requires
            old(self).wf(),
        ensures
            final(self).wf(),
            completions_view(batch@) == old(self)@.delivered,
            final(self)@ == (PoolView { delivered: Seq::empty(), ..old(self)@ }),
    {
        let mut batch: Vec<TaskCompletion> = Vec::new();
        std::mem::swap(&mut self.completed, &mut batch);
        assert(completions_view(self.completed@) =~= Seq::<TaskCompletionView>::empty());
        batch
    }

    /// How often the kill requester was told that the shutdown is complete.
    pub fn kill_confirmations(&self) -> (n: usize)
        ensures
            n == self@.kill_confirmations,
    {
        self.kill_confirmations
    }

    /// The number of tasks in flight.
    pub fn pending_count(&self) -> (n: usize)
        ensures
            n == self@.tasks.dom().len(),
    {
        self.pending_tasks.len()
    }

    /// True when the task `task_id` is in flight.
    pub fn is_pending(&self, task_id: TaskID) -> (pending: bool)
        ensures
            pending == self@.tasks.contains_key(task_id),
    {
        self.pending_tasks.contains(task_id)
    }
}

} // verus!
