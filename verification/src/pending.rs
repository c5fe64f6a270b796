//! Bookkeeping for the tasks that are in flight.

use std::collections::HashMap;
use vstd::prelude::*;
use crate::error::Error;
use crate::task::{copy_bytes, Task, TaskView};
use crate::types::{TaskID, Worker};

verus! {

broadcast use vstd::std_specs::hash::group_hash_axioms;

/// What a worker reports for its part of a task: the part's result, or that it stopped
/// working on the part because cancellation was asked for.
#[derive(Debug, PartialEq, Eq)]
pub enum TaskResultOrCancelled {
    Completed(Vec<u8>),
    Cancelled,
}

/// A worker's report, as plain values.
pub enum TaskOutcome {
    Completed(Seq<u8>),
    Cancelled,
}

impl View for TaskResultOrCancelled {
    type V = TaskOutcome;

    open spec fn view(&self) -> TaskOutcome {
        match self {
            TaskResultOrCancelled::Completed(payload) => TaskOutcome::Completed(payload@),
            TaskResultOrCancelled::Cancelled => TaskOutcome::Cancelled,
        }
    }
}

impl TaskResultOrCancelled {
    /// A copy of this report.
    pub fn duplicate(&self) -> (copy: TaskResultOrCancelled)
        ensures
            copy@ == self@,
    {
        match self {
            TaskResultOrCancelled::Completed(payload) => TaskResultOrCancelled::Completed(
                copy_bytes(payload),
            ),
            TaskResultOrCancelled::Cancelled => TaskResultOrCancelled::Cancelled,
        }
    }
}

/// The terminal result of a task: the report of each of its parts, in the order of the
/// parts.
#[derive(Debug, PartialEq, Eq)]
pub struct TaskResult {
    pub parts: Vec<TaskResultOrCancelled>,
}

/// What a list of reports holds, as plain values.
pub open spec fn outcomes_view(parts: Seq<TaskResultOrCancelled>) -> Seq<TaskOutcome> {
    Seq::new(parts.len(), |k: int| parts[k]@)
}

impl View for TaskResult {
    type V = Seq<TaskOutcome>;

    open spec fn view(&self) -> Seq<TaskOutcome> {
        outcomes_view(self.parts@)
    }
}

/// True when one of the first `count` reports says that its part was cancelled.
pub open spec fn any_cancelled(parts: Seq<TaskOutcome>, count: int) -> bool {
    exists|k: int| 0 <= k < count && #[trigger] parts[k] == TaskOutcome::Cancelled
}

/// The payloads of the first `count` reports, one after the other.
pub open spec fn joined_payloads(parts: Seq<TaskOutcome>, count: int) -> Seq<u8>
    decreases count,
{
    if count <= 0 {
        Seq::empty()
    } else {
        joined_payloads(parts, count - 1) + match parts[count - 1] {
            TaskOutcome::Completed(payload) => payload,
            TaskOutcome::Cancelled => Seq::empty(),
        }
    }
}

/// The reports of all parts as one: cancelled if a part was cancelled, and else completed
/// with the payloads of the parts one after the other, in the order of the parts.
pub open spec fn combined(parts: Seq<TaskOutcome>) -> TaskOutcome {
    if any_cancelled(parts, parts.len() as int) {
        TaskOutcome::Cancelled
    } else {
        TaskOutcome::Completed(joined_payloads(parts, parts.len() as int))
    }
}

impl TaskResult {
    /// The reports of all parts as one: cancelled if a part was cancelled, and else
    /// completed with the payloads of the parts one after the other, in the order of the
    /// parts.
    pub fn combine(&self) -> (whole: TaskResultOrCancelled)
        ensures
            whole@ == combined(self@),
    {
        let mut payload: Vec<u8> = Vec::new();
        let mut k: usize = 0;
        while k < self.parts.len()
            invariant
                k <= self.parts.len(),
                !any_cancelled(self@, k as int),
                payload@ == joined_payloads(self@, k as int),
            decreases self.parts.len() - k,
        {
            assert(self@[k as int] == self.parts@[k as int]@);
            match &self.parts[k] {
                TaskResultOrCancelled::Cancelled => {
                    assert(any_cancelled(self@, self@.len() as int));
                    return TaskResultOrCancelled::Cancelled;
                },
                TaskResultOrCancelled::Completed(part) => {
                    let ghost before = payload@;
                    let mut i: usize = 0;
                    while i < part.len()
                        invariant
                            i <= part.len(),
                            payload@ == before + part@.subrange(0, i as int),
                        decreases part.len() - i,
                    {
                        payload.push(part[i]);
                        assert(payload@ == before + part@.subrange(0, i + 1));
                        i += 1;
                    }
                    assert(part@.subrange(0, part@.len() as int) == part@);
                },
            }
            assert(!any_cancelled(self@, k + 1)) by {
                if any_cancelled(self@, k + 1) {
                    let j = choose|j: int|
                        0 <= j < k + 1 && #[trigger] self@[j] == TaskOutcome::Cancelled;
                    if j < k {
                        assert(any_cancelled(self@, k as int));
                    }
                }
            }
            k += 1;
        }
        TaskResultOrCancelled::Completed(payload)
    }
}

/// What an optional terminal result holds, as plain values.
pub open spec fn result_view(result: Option<TaskResult>) -> Option<Seq<TaskOutcome>> {
    match result {
        Some(r) => Some(r@),
        None => None,
    }
}

/// The reports received so far, each with the worker it came from, as plain values.
pub open spec fn received_view(received: Seq<(Worker, TaskResultOrCancelled)>) -> Seq<
    (Worker, TaskOutcome),
> {
    Seq::new(received.len(), |i: int| (received[i].0, received[i].1@))
}

/// True when `received` holds a report from `worker`.
pub open spec fn has_reported(received: Seq<(Worker, TaskOutcome)>, worker: Worker) -> bool {
    exists|i: int| 0 <= i < received.len() && (#[trigger] received[i]).0 == worker
}

/// True when `i` is the position of the first report from `worker` in `received`.
pub open spec fn is_first_report(
    received: Seq<(Worker, TaskOutcome)>,
    worker: Worker,
    i: int,
) -> bool {
    &&& 0 <= i < received.len()
    &&& received[i].0 == worker
    &&& forall|j: int| 0 <= j < i ==> (#[trigger] received[j]).0 != worker
}

/// The first report from `worker` in `received`, if it has reported.
pub open spec fn report_of(received: Seq<(Worker, TaskOutcome)>, worker: Worker) -> Option<
    TaskOutcome,
> {
    if has_reported(received, worker) {
        Some(received[choose|i: int| is_first_report(received, worker, i)].1)
    } else {
        None
    }
}

/// True when every worker of `active_workers` has reported.
pub open spec fn all_reported(
    active_workers: Seq<Worker>,
    received: Seq<(Worker, TaskOutcome)>,
) -> bool {
    forall|k: int|
        0 <= k < active_workers.len() ==> has_reported(received, #[trigger] active_workers[k])
}

/// The reports in the order of the partitions: entry `k` is what the worker of partition `k`
/// reported, whenever it arrived.
pub open spec fn merged_outcomes(
    active_workers: Seq<Worker>,
    received: Seq<(Worker, TaskOutcome)>,
) -> Seq<TaskOutcome> {
    Seq::new(active_workers.len(), |k: int| report_of(received, active_workers[k]).unwrap())
}

/// How a pending task was split, and what is needed to know when all of it has reported.
#[derive(Debug, PartialEq, Eq)]
pub enum DistributionController {
    /// The task was handed over whole and no worker is on record for it.
    Unsplit,
    /// The task was handed whole to one worker.
    Single { active_worker: Worker },
    /// The task was split: `active_workers[k]` holds partition `k`.
    Distributed {
        active_workers: Vec<Worker>,
        received_results: Vec<(Worker, TaskResultOrCancelled)>,
        reference_task: Task,
    },
}

/// A distribution controller, as plain values.
pub enum DistributionControllerView {
    Unsplit,
    Single { active_worker: Worker },
    Distributed {
        active_workers: Seq<Worker>,
        received_results: Seq<(Worker, TaskOutcome)>,
        reference_task: TaskView,
    },
}

impl View for DistributionController {
    type V = DistributionControllerView;

    open spec fn view(&self) -> DistributionControllerView {
        match self {
            DistributionController::Unsplit => DistributionControllerView::Unsplit,
            DistributionController::Single { active_worker } => DistributionControllerView::Single {
                active_worker: *active_worker,
            },
            DistributionController::Distributed {
                active_workers,
                received_results,
                reference_task,
            } => DistributionControllerView::Distributed {
                active_workers: active_workers@,
                received_results: received_view(received_results@),
                reference_task: reference_task@,
            },
        }
    }
}

impl DistributionControllerView {
    /// True when a report from `worker` counts: the worker holds a part of the task and has
    /// not reported for it before.
    pub open spec fn accepts(self, worker: Worker) -> bool {
        match self {
            DistributionControllerView::Unsplit => true,
            DistributionControllerView::Single { active_worker } => worker == active_worker,
            DistributionControllerView::Distributed { active_workers, received_results, .. } => {
                active_workers.contains(worker) && !has_reported(received_results, worker)
            },
        }
    }

    /// The controller after a report `outcome` from `worker`: a report that counts is put on
    /// record, any other leaves the controller as it was.
    pub open spec fn record(self, worker: Worker, outcome: TaskOutcome) -> DistributionControllerView {
        match self {
            DistributionControllerView::Distributed {
                active_workers,
                received_results,
                reference_task,
            } => if self.accepts(worker) {
                DistributionControllerView::Distributed {
                    active_workers,
                    received_results: received_results.push((worker, outcome)),
                    reference_task,
                }
            } else {
                self
            },
            _ => self,
        }
    }

    /// The terminal result that a report `outcome` from `worker` brings about, if it brings
    /// one about: a task that was not split ends with the first report that counts, a split
    /// one with the report that completes the set, and its result lists the reports by
    /// partition.
    pub open spec fn completion(self, worker: Worker, outcome: TaskOutcome) -> Option<
        Seq<TaskOutcome>,
    > {
        if !self.accepts(worker) {
            None
        } else {
            match self.record(worker, outcome) {
                DistributionControllerView::Distributed {
                    active_workers,
                    received_results,
                    ..
                } => if all_reported(active_workers, received_results) {
                    Some(merged_outcomes(active_workers, received_results))
                } else {
                    None
                },
                _ => Some(seq![outcome]),
            }
        }
    }

    /// The workers that a request to cancel the task is sent to.
    pub open spec fn cancel_targets(self) -> Seq<Worker> {
        match self {
            DistributionControllerView::Unsplit => Seq::empty(),
            DistributionControllerView::Single { active_worker } => seq![active_worker],
            DistributionControllerView::Distributed { active_workers, .. } => active_workers,
        }
    }
}

/// The position of the first report from `worker` in `received`, if there is one.
pub fn find_report(received: &Vec<(Worker, TaskResultOrCancelled)>, worker: Worker) -> (position:
    Option<usize>)
    ensures
        position is Some <==> has_reported(received_view(received@), worker),
        position matches Some(i) ==> is_first_report(received_view(received@), worker, i as int),
{
    let mut i: usize = 0;
    while i < received.len()
        invariant
            i <= received.len(),
            forall|j: int| 0 <= j < i ==> (#[trigger] received_view(received@)[j]).0 != worker,
        decreases received.len() - i,
    {
        if received[i].0 == worker {
            assert(received_view(received@)[i as int].0 == worker);
            return Some(i);
        }
        i += 1;
    }
    None
}

/// The first report from a worker is found at one position only.
pub proof fn lemma_first_report_unique(
    received: Seq<(Worker, TaskOutcome)>,
    worker: Worker,
    i: int,
)
    requires
        is_first_report(received, worker, i),
    ensures
        has_reported(received, worker),
        report_of(received, worker) == Some(received[i].1),
{
    let c = choose|c: int| is_first_report(received, worker, c);
    assert(is_first_report(received, worker, c));
    if c < i {
        assert(received[c].0 != worker);
    } else if i < c {
        assert(received[i].0 != worker);
    }
}

/// True when `worker` occurs in `workers`.
pub fn contains_worker(workers: &Vec<Worker>, worker: Worker) -> (found: bool)
    ensures
        found == workers@.contains(worker),
{
    let mut i: usize = 0;
    while i < workers.len()
        invariant
            i <= workers.len(),
            forall|j: int| 0 <= j < i ==> workers@[j] != worker,
        decreases workers.len() - i,
    {
        if workers[i] == worker {
            return true;
        }
        i += 1;
    }
    false
}

/// The reports by partition, once every worker of `active_workers` has reported; nothing
/// before that.
pub fn merge_results(
    active_workers: &Vec<Worker>,
    received: &Vec<(Worker, TaskResultOrCancelled)>,
) -> (merged: Option<TaskResult>)
    ensures
        merged is Some <==> all_reported(active_workers@, received_view(received@)),
        merged matches Some(result) ==> result@ == merged_outcomes(
            active_workers@,
            received_view(received@),
        ),
{
    let ghost rv = received_view(received@);
    let mut parts: Vec<TaskResultOrCancelled> = Vec::new();
    let mut k: usize = 0;
    while k < active_workers.len()
        invariant
            k <= active_workers.len(),
            rv == received_view(received@),
            parts@.len() == k,
            forall|j: int| 0 <= j < k ==> has_reported(rv, #[trigger] active_workers@[j]),
            forall|j: int|
                0 <= j < k ==> Some((#[trigger] parts@[j])@) == report_of(rv, active_workers@[j]),
        decreases active_workers.len() - k,
    {
        match find_report(received, active_workers[k]) {
            Some(i) => {
                proof {
                    lemma_first_report_unique(rv, active_workers@[k as int], i as int);
                }
                parts.push(received[i].1.duplicate());
            },
            None => {
                return None;
            },
        }
        k += 1;
    }
    let result = TaskResult { parts };
    assert(result@ =~= merged_outcomes(active_workers@, rv));
    Some(result)
}

impl DistributionController {
    /// Takes in the report `outcome` from `worker`. Gives back the controller after the
    /// report and, where the report ends the task, the terminal result.
    pub fn handle_reply(self, worker: Worker, outcome: TaskResultOrCancelled) -> (res: (
        DistributionController,
        Option<TaskResult>,
    ))
        ensures
            res.0@ == self@.record(worker, outcome@),
            result_view(res.1) == self@.completion(worker, outcome@),
    {
        match self {
            DistributionController::Unsplit => {
                let result = TaskResult { parts: vec![outcome] };
                assert(result@ =~= seq![outcome@]);
                (DistributionController::Unsplit, Some(result))
            },
            DistributionController::Single { active_worker } => {
                if worker == active_worker {
                    let result = TaskResult { parts: vec![outcome] };
                    assert(result@ =~= seq![outcome@]);
                    (DistributionController::Single { active_worker }, Some(result))
                } else {
                    (DistributionController::Single { active_worker }, None)
                }
            },
            DistributionController::Distributed {
                active_workers,
                mut received_results,
                reference_task,
            } => {
                let counts = contains_worker(&active_workers, worker) && find_report(
                    &received_results,
                    worker,
                ).is_none();
                if counts {
                    let ghost before = received_view(received_results@);
                    received_results.push((worker, outcome));
                    assert(received_view(received_results@) =~= before.push((worker, outcome@)));
                    let merged = merge_results(&active_workers, &received_results);
                    (
                        DistributionController::Distributed {
                            active_workers,
                            received_results,
                            reference_task,
                        },
                        merged,
                    )
                } else {
                    (
                        DistributionController::Distributed {
                            active_workers,
                            received_results,
                            reference_task,
                        },
                        None,
                    )
                }
            },
        }
    }

    /// The workers that a request to cancel the task is sent to: every worker that holds a
    /// part of it.
    pub fn cancel_targets(&self) -> (targets: Vec<Worker>)
        ensures
            targets@ == self@.cancel_targets(),
    {
        match self {
            DistributionController::Unsplit => Vec::new(),
            DistributionController::Single { active_worker } => vec![*active_worker],
            DistributionController::Distributed { active_workers, .. } => {
                let mut targets: Vec<Worker> = Vec::new();
                let mut i: usize = 0;
                while i < active_workers.len()
                    invariant
                        i <= active_workers.len(),
                        targets@ == active_workers@.subrange(0, i as int),
                    decreases active_workers.len() - i,
                {
                    targets.push(active_workers[i]);
                    assert(targets@ == active_workers@.subrange(0, i + 1));
                    i += 1;
                }
                assert(active_workers@.subrange(0, active_workers@.len() as int)
                    == active_workers@);
                targets
            },
        }
    }
}

/// The way back to the originator of a task.
#[derive(Clone, Copy, Debug, PartialEq, Eq, Structural)]
pub struct ReplyChannel {
    pub id: u64,
}

/// A task in flight: its identifier, the way back to its originator, and its distribution
/// controller.
#[derive(Debug, PartialEq, Eq)]
pub struct PendingWorkerPoolTask {
    pub task_id: TaskID,
    pub comms: ReplyChannel,
    pub distribution_controller: DistributionController,
}

/// A task in flight, as plain values.
pub struct PendingTaskView {
    pub task_id: TaskID,
    pub comms: ReplyChannel,
    pub distribution_controller: DistributionControllerView,
}

impl View for PendingWorkerPoolTask {
    type V = PendingTaskView;

    open spec fn view(&self) -> PendingTaskView {
        PendingTaskView {
            task_id: self.task_id,
            comms: self.comms,
            distribution_controller: self.distribution_controller@,
        }
    }
}

impl PendingTaskView {
    /// The task after a report `outcome` from `worker`.
    pub open spec fn record(self, worker: Worker, outcome: TaskOutcome) -> PendingTaskView {
        PendingTaskView {
            distribution_controller: self.distribution_controller.record(worker, outcome),
            ..self
        }
    }
}

impl PendingWorkerPoolTask {
    /// A task in flight.
    pub fn new(
        task_id: TaskID,
        comms: ReplyChannel,
        distribution_controller: DistributionController,
    ) -> (task: PendingWorkerPoolTask)
        ensures
            task@ == (PendingTaskView {
                task_id,
                comms,
                distribution_controller: distribution_controller@,
            }),
    {
        PendingWorkerPoolTask { task_id, comms, distribution_controller }
    }

    /// Takes in the report `outcome` from `worker`. Gives back the task after the report
    /// and, where the report ends the task, the terminal result.
    pub fn handle_result_or_cancel_and_maybe_complete(
        self,
        worker: Worker,
        outcome: TaskResultOrCancelled,
    ) -> (res: (PendingWorkerPoolTask, Option<TaskResult>))
        ensures
            res.0@ == self@.record(worker, outcome@),
            result_view(res.1) == self@.distribution_controller.completion(worker, outcome@),
    {
        let PendingWorkerPoolTask { task_id, comms, distribution_controller } = self;
        let (distribution_controller, done) = distribution_controller.handle_reply(
            worker,
            outcome,
        );
        (PendingWorkerPoolTask { task_id, comms, distribution_controller }, done)
    }
}

/// What recording a worker's report came to.
#[derive(Debug, PartialEq, Eq)]
pub enum ReplyStatus {
    /// No task is in flight under the identifier: the report was dropped.
    UnknownTask,
    /// The task is still in flight.
    Pending,
    /// The report ended the task, with this result.
    Terminal(TaskResult),
}

/// What recording a report came to, as plain values.
pub enum ReplyStatusView {
    UnknownTask,
    Pending,
    Terminal(Seq<TaskOutcome>),
}

impl View for ReplyStatus {
    type V = ReplyStatusView;

    open spec fn view(&self) -> ReplyStatusView {
        match self {
            ReplyStatus::UnknownTask => ReplyStatusView::UnknownTask,
            ReplyStatus::Pending => ReplyStatusView::Pending,
            ReplyStatus::Terminal(result) => ReplyStatusView::Terminal(result@),
        }
    }
}

/// The table of tasks after a report `outcome` from `worker` for `task_id`: the task under
/// that identifier has the report on record, and a report for an identifier that is not in
/// the table changes nothing.
pub open spec fn record_in(
    tasks: Map<TaskID, PendingTaskView>,
    worker: Worker,
    task_id: TaskID,
    outcome: TaskOutcome,
) -> Map<TaskID, PendingTaskView> {
    if tasks.contains_key(task_id) {
        tasks.insert(task_id, tasks[task_id].record(worker, outcome))
    } else {
        tasks
    }
}

/// What recording a report `outcome` from `worker` for `task_id` comes to.
pub open spec fn status_in(
    tasks: Map<TaskID, PendingTaskView>,
    worker: Worker,
    task_id: TaskID,
    outcome: TaskOutcome,
) -> ReplyStatusView {
    if !tasks.contains_key(task_id) {
        ReplyStatusView::UnknownTask
    } else {
        match tasks[task_id].distribution_controller.completion(worker, outcome) {
            Some(result) => ReplyStatusView::Terminal(result),
            None => ReplyStatusView::Pending,
        }
    }
}

/// The tasks in flight, by identifier, and the requests to cancel that wait to be polled.
pub struct PendingWorkerPoolTasks {
    inner: HashMap<TaskID, PendingWorkerPoolTask>,
    cancel_requests: Vec<TaskID>,
}

impl PendingWorkerPoolTasks {
    /// The tasks in flight, by identifier.
    pub closed spec fn tasks(&self) -> Map<TaskID, PendingTaskView> {
        Map::new(
            |task_id: TaskID| self.inner@.contains_key(task_id),
            |task_id: TaskID| self.inner@[task_id]@,
        )
    }

    /// The requests to cancel that came in since the last poll, oldest first.
    pub closed spec fn cancel_requests(&self) -> Seq<TaskID> {
        self.cancel_requests@
    }

    /// An empty table.
    pub fn new() -> (table: PendingWorkerPoolTasks)
        ensures
            table.tasks() == Map::<TaskID, PendingTaskView>::empty(),
            table.cancel_requests() == Seq::<TaskID>::empty(),
    {
        let table = PendingWorkerPoolTasks { inner: HashMap::new(), cancel_requests: Vec::new() };
        assert(table.tasks() =~= Map::<TaskID, PendingTaskView>::empty());
        table
    }

    /// True when a task is in flight under `task_id`.
    pub fn contains(&self, task_id: TaskID) -> (found: bool)
        ensures
            found == self.tasks().contains_key(task_id),
    {
        self.inner.contains_key(&task_id)
    }

    /// The number of tasks in flight.
    pub fn len(&self) -> (n: usize)
        ensures
            n == self.tasks().dom().len(),
    {
        assert(self.tasks().dom() =~= self.inner@.dom());
        self.inner.len()
    }

    /// Puts a task on record. An identifier that is still in flight is refused, and the
    /// table stays as it was.
    pub fn insert(
        &mut self,
        task_id: TaskID,
        comms: ReplyChannel,
        distribution_controller: DistributionController,
    ) -> (res: Result<(), Error>)
        ensures
            final(self).cancel_requests() == old(self).cancel_requests(),
            res is Err <==> old(self).tasks().contains_key(task_id),
            res is Err ==> res == Err::<(), Error>(Error::DuplicateTask(task_id))
                && final(self).tasks() == old(self).tasks(),
            res is Ok ==> final(self).tasks() == old(self).tasks().insert(
                task_id,
                PendingTaskView { task_id, comms, distribution_controller: distribution_controller@ },
            ),
    {
        if self.inner.contains_key(&task_id) {
            return Err(Error::DuplicateTask(task_id));
        }
        let task = PendingWorkerPoolTask::new(task_id, comms, distribution_controller);
        self.inner.insert(task_id, task);
        assert(self.tasks() =~= old(self).tasks().insert(
            task_id,
            PendingTaskView { task_id, comms, distribution_controller: distribution_controller@ },
        ));
        Ok(())
    }

    /// Takes in the report `outcome` from `worker` for the task `task_id`, and says what it
    /// came to. The task stays in the table also where the report ends it.
    pub fn record_reply(
        &mut self,
        worker: Worker,
        task_id: TaskID,
        outcome: TaskResultOrCancelled,
    ) -> (status: ReplyStatus)
        ensures
            final(self).cancel_requests() == old(self).cancel_requests(),
            final(self).tasks() == record_in(old(self).tasks(), worker, task_id, outcome@),
            status@ == status_in(old(self).tasks(), worker, task_id, outcome@),
    {
        match self.inner.remove(&task_id) {
            None => {
                assert(self.tasks() =~= old(self).tasks());
                ReplyStatus::UnknownTask
            },
            Some(task) => {
                let (task, done) = task.handle_result_or_cancel_and_maybe_complete(
                    worker,
                    outcome,
                );
                self.inner.insert(task_id, task);
                assert(self.tasks() =~= record_in(old(self).tasks(), worker, task_id, outcome@));
                match done {
                    Some(result) => ReplyStatus::Terminal(result),
                    None => ReplyStatus::Pending,
                }
            },
        }
    }

    /// Takes the task `task_id` out of the table and hands it back, if it was there.
    pub fn remove(&mut self, task_id: TaskID) -> (task: Option<PendingWorkerPoolTask>)
        ensures
            final(self).cancel_requests() == old(self).cancel_requests(),
            final(self).tasks() == old(self).tasks().remove(task_id),
            task is Some <==> old(self).tasks().contains_key(task_id),
            task matches Some(t) ==> t@ == old(self).tasks()[task_id],
    {
        let task = self.inner.remove(&task_id);
        assert(self.tasks() =~= old(self).tasks().remove(task_id));
        task
    }

    /// The workers that hold a part of the task `task_id`, if it is in flight.
    pub fn cancel_targets(&self, task_id: TaskID) -> (targets: Option<Vec<Worker>>)
        ensures
            targets is Some <==> self.tasks().contains_key(task_id),
            targets matches Some(t) ==> t@
                == self.tasks()[task_id].distribution_controller.cancel_targets(),
    {
        match self.inner.get(&task_id) {
            Some(task) => Some(task.distribution_controller.cancel_targets()),
            None => None,
        }
    }

    /// Notes that the originator asks to cancel the task `task_id`. Nothing else changes
    /// until the request is polled.
    pub fn request_cancel(&mut self, task_id: TaskID)
        ensures
            final(self).tasks() == old(self).tasks(),
            final(self).cancel_requests() == old(self).cancel_requests().push(task_id),
    {
        self.cancel_requests.push(task_id);
    }

    /// The requests to cancel that came in since the last poll, oldest first. It never
    /// waits: where none came in, the batch is empty.
    pub fn poll_cancellations(&mut self) -> (batch: Vec<TaskID>)
        ensures
            final(self).tasks() == old(self).tasks(),
            final(self).cancel_requests() == Seq::<TaskID>::empty(),
            batch@ == old(self).cancel_requests(),
    {
        let mut batch: Vec<TaskID> = Vec::new();
        std::mem::swap(&mut self.cancel_requests, &mut batch);
        batch
    }
}

} // verus!
