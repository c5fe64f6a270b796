//! The messages of the pool and the handles through which it reaches its workers.

use vstd::prelude::*;
use crate::error::Error;
use crate::pending::{ReplyChannel, TaskOutcome, TaskResult, TaskResultOrCancelled};
use crate::runs::WorkerAllocation;
use crate::task::{copy_bytes, Task, TaskSharedStore, TaskView, WorkerTask, WorkerTaskView};
use crate::types::{SimulationShortID, TaskID, WorkerIndex};

verus! {

/// Identifier of the package that a task belongs to.
pub type PackageId = u32;

/// What the pool tells a worker.
#[derive(Debug, PartialEq, Eq)]
pub enum WorkerPoolToWorkerMsgPayload {
    /// Run this (sub-)task on this (sub-)store.
    Task(WorkerTask),
    /// Synchronise with the state of the simulation.
    Sync(Vec<u8>),
    /// Stop working on the task.
    CancelTask(TaskID),
    /// Shut down.
    Kill,
}

/// What the pool tells a worker, as plain values.
pub enum WorkerPoolToWorkerMsgPayloadView {
    Task(WorkerTaskView),
    Sync(Seq<u8>),
    CancelTask(TaskID),
    Kill,
}

impl View for WorkerPoolToWorkerMsgPayload {
    type V = WorkerPoolToWorkerMsgPayloadView;

    open spec fn view(&self) -> WorkerPoolToWorkerMsgPayloadView {
        match self {
            WorkerPoolToWorkerMsgPayload::Task(task) => WorkerPoolToWorkerMsgPayloadView::Task(
                task@,
            ),
            WorkerPoolToWorkerMsgPayload::Sync(payload) => WorkerPoolToWorkerMsgPayloadView::Sync(
                payload@,
            ),
            WorkerPoolToWorkerMsgPayload::CancelTask(task_id) => {
                WorkerPoolToWorkerMsgPayloadView::CancelTask(*task_id)
            },
            WorkerPoolToWorkerMsgPayload::Kill => WorkerPoolToWorkerMsgPayloadView::Kill,
        }
    }
}

/// A message from the pool to a worker: the simulation run it concerns, if it concerns one,
/// and what is said.
#[derive(Debug, PartialEq, Eq)]
pub struct WorkerPoolToWorkerMsg {
    pub sim_id: Option<SimulationShortID>,
    pub payload: WorkerPoolToWorkerMsgPayload,
}

/// A message from the pool to a worker, as plain values.
pub struct WorkerPoolToWorkerMsgView {
    pub sim_id: Option<SimulationShortID>,
    pub payload: WorkerPoolToWorkerMsgPayloadView,
}

impl View for WorkerPoolToWorkerMsg {
    type V = WorkerPoolToWorkerMsgView;

    open spec fn view(&self) -> WorkerPoolToWorkerMsgView {
        WorkerPoolToWorkerMsgView { sim_id: self.sim_id, payload: self.payload@ }
    }
}

impl WorkerPoolToWorkerMsgView {
    /// The message that hands a (sub-)task of the run `sim_id` to a worker.
    pub open spec fn task(sim_id: SimulationShortID, task: WorkerTaskView) -> Self {
        WorkerPoolToWorkerMsgView {
            sim_id: Some(sim_id),
            payload: WorkerPoolToWorkerMsgPayloadView::Task(task),
        }
    }

    /// The message that tells a worker to synchronise with the run `sim_id`.
    pub open spec fn sync(sim_id: SimulationShortID, payload: Seq<u8>) -> Self {
        WorkerPoolToWorkerMsgView {
            sim_id: Some(sim_id),
            payload: WorkerPoolToWorkerMsgPayloadView::Sync(payload),
        }
    }

    /// The message that tells a worker to stop working on the task `task_id`.
    pub open spec fn cancel_task(task_id: TaskID) -> Self {
        WorkerPoolToWorkerMsgView {
            sim_id: None,
            payload: WorkerPoolToWorkerMsgPayloadView::CancelTask(task_id),
        }
    }

    /// The message that tells a worker to shut down.
    pub open spec fn kill() -> Self {
        WorkerPoolToWorkerMsgView { sim_id: None, payload: WorkerPoolToWorkerMsgPayloadView::Kill }
    }
}

impl WorkerPoolToWorkerMsg {
    /// The message that hands a (sub-)task of the run `sim_id` to a worker.
    pub fn task(sim_id: SimulationShortID, task: WorkerTask) -> (msg: WorkerPoolToWorkerMsg)
        ensures
            msg@ == WorkerPoolToWorkerMsgView::task(sim_id, task@),
    {
        WorkerPoolToWorkerMsg {
            sim_id: Some(sim_id),
            payload: WorkerPoolToWorkerMsgPayload::Task(task),
        }
    }

    /// The message that tells a worker to synchronise with the run `sim_id`.
    pub fn sync(sim_id: SimulationShortID, payload: Vec<u8>) -> (msg: WorkerPoolToWorkerMsg)
        ensures
            msg@ == WorkerPoolToWorkerMsgView::sync(sim_id, payload@),
    {
        WorkerPoolToWorkerMsg {
            sim_id: Some(sim_id),
            payload: WorkerPoolToWorkerMsgPayload::Sync(payload),
        }
    }

    /// The message that tells a worker to stop working on the task `task_id`.
    pub fn cancel_task(task_id: TaskID) -> (msg: WorkerPoolToWorkerMsg)
        ensures
            msg@ == WorkerPoolToWorkerMsgView::cancel_task(task_id),
    {
        WorkerPoolToWorkerMsg {
            sim_id: None,
            payload: WorkerPoolToWorkerMsgPayload::CancelTask(task_id),
        }
    }

    /// The message that tells a worker to shut down.
    pub fn kill() -> (msg: WorkerPoolToWorkerMsg)
        ensures
            msg@ == WorkerPoolToWorkerMsgView::kill(),
    {
        WorkerPoolToWorkerMsg { sim_id: None, payload: WorkerPoolToWorkerMsgPayload::Kill }
    }

    /// A copy of this message.
    pub fn duplicate(&self) -> (copy: WorkerPoolToWorkerMsg)
        ensures
            copy@ == self@,
    {
        let payload = match &self.payload {
            WorkerPoolToWorkerMsgPayload::Task(task) => {
                let mut batches: Vec<u64> = Vec::new();
                let mut i: usize = 0;
                while i < task.shared_store.batches.len()
                    invariant
                        i <= task.shared_store.batches.len(),
                        batches@ == task.shared_store.batches@.subrange(0, i as int),
                    decreases task.shared_store.batches.len() - i,
                {
                    batches.push(task.shared_store.batches[i]);
                    assert(batches@ == task.shared_store.batches@.subrange(0, i + 1));
                    i += 1;
                }
                assert(task.shared_store.batches@.subrange(
                    0,
                    task.shared_store.batches@.len() as int,
                ) == task.shared_store.batches@);
                WorkerPoolToWorkerMsgPayload::Task(
                    WorkerTask {
                        task_id: task.task_id,
                        task: task.task.duplicate(),
                        shared_store: TaskSharedStore { batches },
                    },
                )
            },
            WorkerPoolToWorkerMsgPayload::Sync(payload) => WorkerPoolToWorkerMsgPayload::Sync(
                copy_bytes(payload),
            ),
            WorkerPoolToWorkerMsgPayload::CancelTask(task_id) => {
                WorkerPoolToWorkerMsgPayload::CancelTask(*task_id)
            },
            WorkerPoolToWorkerMsgPayload::Kill => WorkerPoolToWorkerMsgPayload::Kill,
        };
        WorkerPoolToWorkerMsg { sim_id: self.sim_id, payload }
    }
}

/// A worker's report on one task.
#[derive(Debug, PartialEq, Eq)]
pub struct WorkerTaskResultOrCancelled {
    pub task_id: TaskID,
    pub payload: TaskResultOrCancelled,
}

/// What a worker tells the pool.
#[derive(Debug, PartialEq, Eq)]
pub enum WorkerToWorkerPoolMsg {
    /// The result of a (sub-)task, or the acknowledgement that it was cancelled.
    TaskResultOrCancelled(WorkerTaskResultOrCancelled),
    /// Errors of the worker's runners.
    RunnerErrors(Vec<u8>),
    /// Warnings of the worker's runners.
    RunnerWarnings(Vec<u8>),
}

/// What a worker tells the pool, as plain values.
pub enum WorkerToWorkerPoolMsgView {
    TaskResultOrCancelled { task_id: TaskID, payload: TaskOutcome },
    RunnerErrors(Seq<u8>),
    RunnerWarnings(Seq<u8>),
}

impl View for WorkerToWorkerPoolMsg {
    type V = WorkerToWorkerPoolMsgView;

    open spec fn view(&self) -> WorkerToWorkerPoolMsgView {
        match self {
            WorkerToWorkerPoolMsg::TaskResultOrCancelled(res) => {
                WorkerToWorkerPoolMsgView::TaskResultOrCancelled {
                    task_id: res.task_id,
                    payload: res.payload@,
                }
            },
            WorkerToWorkerPoolMsg::RunnerErrors(errors) => WorkerToWorkerPoolMsgView::RunnerErrors(
                errors@,
            ),
            WorkerToWorkerPoolMsg::RunnerWarnings(warnings) => {
                WorkerToWorkerPoolMsgView::RunnerWarnings(warnings@)
            },
        }
    }
}

/// What the pool passes up to the experiment controller.
#[derive(Debug, PartialEq, Eq)]
pub enum WorkerPoolToExpCtlMsg {
    RunnerErrors(Vec<u8>),
    RunnerWarnings(Vec<u8>),
}

/// What the pool passes up, as plain values.
pub enum WorkerPoolToExpCtlMsgView {
    RunnerErrors(Seq<u8>),
    RunnerWarnings(Seq<u8>),
}

impl View for WorkerPoolToExpCtlMsg {
    type V = WorkerPoolToExpCtlMsgView;

    open spec fn view(&self) -> WorkerPoolToExpCtlMsgView {
        match self {
            WorkerPoolToExpCtlMsg::RunnerErrors(errors) => WorkerPoolToExpCtlMsgView::RunnerErrors(
                errors@,
            ),
            WorkerPoolToExpCtlMsg::RunnerWarnings(warnings) => {
                WorkerPoolToExpCtlMsgView::RunnerWarnings(warnings@)
            },
        }
    }
}

/// A task as the step pipeline submits it.
#[derive(Debug, PartialEq, Eq)]
pub struct WrappedTask {
    pub task_id: TaskID,
    pub package_id: PackageId,
    pub inner: Task,
    pub comms: ReplyChannel,
    pub shared_store: TaskSharedStore,
}

/// A submitted task, as plain values.
pub struct WrappedTaskView {
    pub task_id: TaskID,
    pub package_id: PackageId,
    pub inner: TaskView,
    pub comms: ReplyChannel,
    pub shared_store: Seq<u64>,
}

impl View for WrappedTask {
    type V = WrappedTaskView;

    open spec fn view(&self) -> WrappedTaskView {
        WrappedTaskView {
            task_id: self.task_id,
            package_id: self.package_id,
            inner: self.inner@,
            comms: self.comms,
            shared_store: self.shared_store@,
        }
    }
}

/// What the step pipeline tells the pool.
#[derive(Debug, PartialEq, Eq)]
pub enum EngineToWorkerPoolMsgPayload {
    /// A new task.
    Task(WrappedTask),
    /// Every worker is to synchronise.
    Sync(Vec<u8>),
}

/// What the step pipeline tells the pool, as plain values.
pub enum EngineToWorkerPoolMsgPayloadView {
    Task(WrappedTaskView),
    Sync(Seq<u8>),
}

impl View for EngineToWorkerPoolMsgPayload {
    type V = EngineToWorkerPoolMsgPayloadView;

    open spec fn view(&self) -> EngineToWorkerPoolMsgPayloadView {
        match self {
            EngineToWorkerPoolMsgPayload::Task(task) => EngineToWorkerPoolMsgPayloadView::Task(
                task@,
            ),
            EngineToWorkerPoolMsgPayload::Sync(payload) => EngineToWorkerPoolMsgPayloadView::Sync(
                payload@,
            ),
        }
    }
}

/// A message from the step pipeline.
#[derive(Debug, PartialEq, Eq)]
pub struct EngineToWorkerPoolMsg {
    pub payload: EngineToWorkerPoolMsgPayload,
}

impl View for EngineToWorkerPoolMsg {
    type V = EngineToWorkerPoolMsgPayloadView;

    open spec fn view(&self) -> EngineToWorkerPoolMsgPayloadView {
        self.payload@
    }
}

/// The announcement of a new simulation run and of the workers allocated to it.
#[derive(Debug, PartialEq, Eq)]
pub struct NewSimulationRun {
    pub short_id: SimulationShortID,
    pub worker_allocation: WorkerAllocation,
}

/// What the experiment layer tells the pool.
#[derive(Debug, PartialEq, Eq)]
pub enum ExperimentToWorkerPoolMsg {
    NewSimulationRun(NewSimulationRun),
}

/// A terminal result on its way to the originator of the task.
#[derive(Debug, PartialEq, Eq)]
pub struct TaskCompletion {
    pub task_id: TaskID,
    pub comms: ReplyChannel,
    pub result: TaskResult,
}

/// A delivery to an originator, as plain values.
pub struct TaskCompletionView {
    pub task_id: TaskID,
    pub comms: ReplyChannel,
    pub result: Seq<TaskOutcome>,
}

impl View for TaskCompletion {
    type V = TaskCompletionView;

    open spec fn view(&self) -> TaskCompletionView {
        TaskCompletionView { task_id: self.task_id, comms: self.comms, result: self.result@ }
    }
}

/// What a list of addressed messages holds, as plain values.
pub open spec fn batch_view(batch: Seq<(WorkerIndex, WorkerPoolToWorkerMsg)>) -> Seq<
    (WorkerIndex, WorkerPoolToWorkerMsgView),
> {
    Seq::new(batch.len(), |i: int| (batch[i].0, batch[i].1@))
}

/// The same message once for each of the workers `0` to `num_workers - 1`, in that order.
pub open spec fn broadcast(num_workers: int, msg: WorkerPoolToWorkerMsgView) -> Seq<
    (WorkerIndex, WorkerPoolToWorkerMsgView),
> {
    Seq::new(num_workers as nat, |i: int| (i as WorkerIndex, msg))
}

/// How a batch of addressed messages goes out through handles for `num_workers` workers,
/// after what `sent` holds: one by one and in order, until the batch is through or a message
/// is addressed to an index that there is no handle for. That message and those behind it
/// are not sent, and the error names the index.
pub open spec fn dispatch(
    num_workers: usize,
    sent: Seq<(WorkerIndex, WorkerPoolToWorkerMsgView)>,
    batch: Seq<(WorkerIndex, WorkerPoolToWorkerMsgView)>,
) -> (Seq<(WorkerIndex, WorkerPoolToWorkerMsgView)>, Result<(), Error>)
    decreases batch.len(),
{
    if batch.len() == 0 {
        (sent, Ok(()))
    } else if batch[0].0 >= num_workers {
        (sent, Err(Error::MissingWorker(batch[0].0)))
    } else {
        dispatch(num_workers, sent.push(batch[0]), batch.drop_first())
    }
}

/// A batch in which every message is addressed to a worker that there is a handle for goes
/// out whole.
pub proof fn lemma_dispatch_all(
    num_workers: usize,
    sent: Seq<(WorkerIndex, WorkerPoolToWorkerMsgView)>,
    batch: Seq<(WorkerIndex, WorkerPoolToWorkerMsgView)>,
)
    requires
        forall|i: int| 0 <= i < batch.len() ==> (#[trigger] batch[i]).0 < num_workers,
    ensures
        dispatch(num_workers, sent, batch) == (sent + batch, Ok::<(), Error>(())),
    decreases batch.len(),
{
    if batch.len() == 0 {
        assert(sent + batch =~= sent);
    } else {
        lemma_dispatch_all(num_workers, sent.push(batch[0]), batch.drop_first());
        assert(sent.push(batch[0]) + batch.drop_first() =~= sent + batch);
    }
}

/// The handles of the pool's workers: worker `i` of `num_workers` is reached under the
/// index `i`. What is sent waits in `outgoing`, in the order in which it was sent, until it
/// is taken out and put on the wire.
pub struct WorkerPoolCommsWithWorkers {
    num_workers: usize,
    outgoing: Vec<(WorkerIndex, WorkerPoolToWorkerMsg)>,
}

impl WorkerPoolCommsWithWorkers {
    /// The number of workers that there is a handle for.
    pub closed spec fn num_workers(&self) -> usize {
        self.num_workers
    }

    /// What was sent and not yet taken out, each message with the index of its worker.
    pub closed spec fn sent(&self) -> Seq<(WorkerIndex, WorkerPoolToWorkerMsgView)> {
        batch_view(self.outgoing@)
    }

    /// Handles for `num_workers` workers, with nothing sent.
    pub fn new_pool_comms(num_workers: usize) -> (comms: WorkerPoolCommsWithWorkers)
        ensures
            comms.num_workers() == num_workers,
            comms.sent() == Seq::<(WorkerIndex, WorkerPoolToWorkerMsgView)>::empty(),
    {
        let comms = WorkerPoolCommsWithWorkers { num_workers, outgoing: Vec::new() };
        assert(comms.sent() =~= Seq::<(WorkerIndex, WorkerPoolToWorkerMsgView)>::empty());
        comms
    }

    /// The number of workers that there is a handle for.
    pub fn worker_count(&self) -> (n: usize)
        ensures
            n == self.num_workers(),
    {
        self.num_workers
    }

    /// Sends `msg` to the worker `index`. There is no handle for an index that is not below
    /// the number of workers: the message is then not sent and the error names the index.
    pub fn send(&mut self, index: WorkerIndex, msg: WorkerPoolToWorkerMsg) -> (res: Result<
        (),
        Error,
    >)
        ensures
            final(self).num_workers() == old(self).num_workers(),
            res is Ok <==> index < old(self).num_workers(),
            res is Ok ==> final(self).sent() == old(self).sent().push((index, msg@)),
            res is Err ==> res == Err::<(), Error>(Error::MissingWorker(index)),
            res is Err ==> final(self).sent() == old(self).sent(),
    {
        if index >= self.num_workers {
            return Err(Error::MissingWorker(index));
        }
        self.outgoing.push((index, msg));
        assert(self.sent() =~= old(self).sent().push((index, msg@)));
        Ok(())
    }

    /// Sends a copy of `msg` to every worker, from the first to the last.
    pub fn send_all(&mut self, msg: WorkerPoolToWorkerMsg) -> (res: Result<(), Error>)
        ensures
            res == Ok::<(), Error>(()),
            final(self).num_workers() == old(self).num_workers(),
            final(self).sent() == old(self).sent() + broadcast(
                old(self).num_workers() as int,
                msg@,
            ),
    {
        let mut index: usize = 0;
        while index < self.num_workers
            invariant
                index <= self.num_workers,
                self.num_workers == old(self).num_workers,
                self.sent() == old(self).sent() + broadcast(index as int, msg@),
            decreases self.num_workers - index,
        {
            let ghost before = self.sent();
            self.outgoing.push((index, msg.duplicate()));
            assert(self.sent() =~= before.push((index, msg@)));
            assert(before.push((index, msg@)) =~= old(self).sent() + broadcast(
                index + 1,
                msg@,
            ));
            index += 1;
        }
        Ok(())
    }

    /// Sends the messages of `batch`, each to the worker it is addressed to, one by one and
    /// in order. It stops at the first that is addressed to an index without a handle.
    pub fn send_batch(&mut self, batch: Vec<(WorkerIndex, WorkerPoolToWorkerMsg)>) -> (res: Result<
        (),
        Error,
    >)
        ensures
            final(self).num_workers() == old(self).num_workers(),
            (final(self).sent(), res) == dispatch(
                old(self).num_workers(),
                old(self).sent(),
                batch_view(batch@),
            ),
    {
        let mut rest = batch;
        while rest.len() > 0
            invariant
                self.num_workers() == old(self).num_workers(),
                dispatch(
                    old(self).num_workers(),
                    old(self).sent(),
                    batch_view(batch@),
                ) == dispatch(self.num_workers(), self.sent(), batch_view(rest@)),
            decreases rest.len(),
        {
            let ghost ahead = batch_view(rest@);
            let ghost before = self.sent();
            let (index, msg) = rest.remove(0);
            assert(batch_view(rest@) =~= ahead.drop_first());
            assert(ahead[0] == (index, msg@));
            match self.send(index, msg) {
                Ok(()) => {},
                Err(e) => {
                    assert(dispatch(self.num_workers(), before, ahead) == (
                        before,
                        Err::<(), Error>(Error::MissingWorker(index)),
                    ));
                    return Err(e);
                },
            }
        }
        assert(batch_view(rest@).len() == 0);
        Ok(())
    }

    /// Takes out what was sent, for the caller to put on the wire.
    pub fn take_outgoing(&mut self) -> (batch: Vec<(WorkerIndex, WorkerPoolToWorkerMsg)>)
        ensures
            final(self).num_workers() == old(self).num_workers(),
            final(self).sent() == Seq::<(WorkerIndex, WorkerPoolToWorkerMsgView)>::empty(),
            batch_view(batch@) == old(self).sent(),
    {
        let mut batch: Vec<(WorkerIndex, WorkerPoolToWorkerMsg)> = Vec::new();
        std::mem::swap(&mut self.outgoing, &mut batch);
        assert(self.sent() =~= Seq::<(WorkerIndex, WorkerPoolToWorkerMsgView)>::empty());
        batch
    }
}

/// What a list of upward messages holds, as plain values.
pub open spec fn upward_view(
    msgs: Seq<(Option<SimulationShortID>, WorkerPoolToExpCtlMsg)>,
) -> Seq<(Option<SimulationShortID>, WorkerPoolToExpCtlMsgView)> {
    Seq::new(msgs.len(), |i: int| (msgs[i].0, msgs[i].1@))
}

/// The sending end of the pool's line to the experiment controller. What is sent waits, in
/// order, until it is taken out and put on the wire.
pub struct WorkerPoolMsgSend {
    inner: Vec<(Option<SimulationShortID>, WorkerPoolToExpCtlMsg)>,
}

impl WorkerPoolMsgSend {
    /// What was sent and not yet taken out.
    pub closed spec fn sent(&self) -> Seq<(Option<SimulationShortID>, WorkerPoolToExpCtlMsgView)> {
        upward_view(self.inner@)
    }

    /// A line with nothing sent.
    pub fn new() -> (line: WorkerPoolMsgSend)
        ensures
            line.sent() == Seq::<(Option<SimulationShortID>, WorkerPoolToExpCtlMsgView)>::empty(),
    {
        let line = WorkerPoolMsgSend { inner: Vec::new() };
        assert(line.sent() =~= Seq::<
            (Option<SimulationShortID>, WorkerPoolToExpCtlMsgView),
        >::empty());
        line
    }

    /// Sends `msg` up, for the run `sim_id` if it concerns one.
    pub fn send(&mut self, sim_id: Option<SimulationShortID>, msg: WorkerPoolToExpCtlMsg)
        ensures
            final(self).sent() == old(self).sent().push((sim_id, msg@)),
    {
        self.inner.push((sim_id, msg));
        assert(self.sent() =~= old(self).sent().push((sim_id, msg@)));
    }

    /// Takes out what was sent, for the caller to put on the wire.
    pub fn take(&mut self) -> (batch: Vec<(Option<SimulationShortID>, WorkerPoolToExpCtlMsg)>)
        ensures
            final(self).sent() == Seq::<
                (Option<SimulationShortID>, WorkerPoolToExpCtlMsgView),
            >::empty(),
            upward_view(batch@) == old(self).sent(),
    {
        let mut batch: Vec<(Option<SimulationShortID>, WorkerPoolToExpCtlMsg)> = Vec::new();
        std::mem::swap(&mut self.inner, &mut batch);
        assert(self.sent() =~= Seq::<
            (Option<SimulationShortID>, WorkerPoolToExpCtlMsgView),
        >::empty());
        batch
    }
}

} // verus!
