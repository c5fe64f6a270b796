//! Tasks, the data they work on, and how both are split among workers.

use vstd::prelude::*;
use vstd::arithmetic::div_mod::lemma_fundamental_div_mod;
use crate::error::Error;
use crate::runs::WorkerAllocation;
use crate::types::{TaskID, Worker};

verus! {

/// How a distributed task asks to be split.
#[derive(Clone, Copy, Debug, PartialEq, Eq, Structural)]
pub struct StateBatchDistribution {
    /// Into how many partitions the data is cut, one per worker.
    pub partitions: usize,
}

/// The distribution policy of a task.
#[derive(Clone, Copy, Debug, PartialEq, Eq, Structural)]
pub enum TaskDistributionConfig {
    /// The data is partitioned and each partition goes to a worker of its own.
    Distributed(StateBatchDistribution),
    /// The whole task goes to one worker.
    NotDistributed,
}

/// A unit of work: a payload that the pool never looks into, and a distribution policy.
#[derive(Debug, PartialEq, Eq)]
pub struct Task {
    pub payload: Vec<u8>,
    pub distribution: TaskDistributionConfig,
}

/// What a task is, as plain values.
pub struct TaskView {
    pub payload: Seq<u8>,
    pub distribution: TaskDistributionConfig,
}

impl View for Task {
    type V = TaskView;

    open spec fn view(&self) -> TaskView {
        TaskView { payload: self.payload@, distribution: self.distribution }
    }
}

/// The data a task operates on: references to batches in shared memory, in order.
#[derive(Debug, PartialEq, Eq)]
pub struct TaskSharedStore {
    pub batches: Vec<u64>,
}

impl View for TaskSharedStore {
    type V = Seq<u64>;

    open spec fn view(&self) -> Seq<u64> {
        self.batches@
    }
}

/// How a store was cut: the number of parts and the number of batches in each.
#[derive(Debug, PartialEq, Eq)]
pub struct SplitConfig {
    pub num_workers: usize,
    pub batch_distribution: Vec<usize>,
}

/// What is sent to one worker: the task's identifier, its (sub-)task and its (sub-)store.
#[derive(Debug, PartialEq, Eq)]
pub struct WorkerTask {
    pub task_id: TaskID,
    pub task: Task,
    pub shared_store: TaskSharedStore,
}

/// What a worker task is, as plain values.
pub struct WorkerTaskView {
    pub task_id: TaskID,
    pub task: TaskView,
    pub shared_store: Seq<u64>,
}

impl View for WorkerTask {
    type V = WorkerTaskView;

    open spec fn view(&self) -> WorkerTaskView {
        WorkerTaskView { task_id: self.task_id, task: self.task@, shared_store: self.shared_store@ }
    }
}

/// The number of batches in part `k` when `total` batches are cut into `parts` parts: the
/// parts differ by at most one batch, and the larger ones come first.
pub open spec fn part_len(total: int, parts: int, k: int) -> int {
    total / parts + if k < total % parts {
        1int
    } else {
        0int
    }
}

/// The position of the first batch of part `k`.
pub open spec fn part_start(total: int, parts: int, k: int) -> int
    decreases k,
{
    if k <= 0 {
        0
    } else {
        part_start(total, parts, k - 1) + part_len(total, parts, k - 1)
    }
}

/// The batches of part `k`.
pub open spec fn part_of(store: Seq<u64>, parts: int, k: int) -> Seq<u64> {
    store.subrange(
        part_start(store.len() as int, parts, k),
        part_start(store.len() as int, parts, k + 1),
    )
}

/// The parts of `store`, from the first to the last.
pub open spec fn partition(store: Seq<u64>, parts: int) -> Seq<Seq<u64>> {
    Seq::new(parts as nat, |k: int| part_of(store, parts, k))
}

/// The first `count` parts of `store`, each with the worker it goes to: part `k` goes to
/// the worker at position `k` of `workers`.
pub open spec fn distributed_tables(store: Seq<u64>, workers: Seq<Worker>, parts: int, count: int) -> Seq<
    (Worker, Seq<u64>),
> {
    Seq::new(count as nat, |k: int| (workers[k], part_of(store, parts, k)))
}

/// The sizes of the first `count` parts of `total` batches.
pub open spec fn part_lens(total: int, parts: int, count: int) -> Seq<usize> {
    Seq::new(count as nat, |k: int| part_len(total, parts, k) as usize)
}

/// What a list of (worker, store) pairs holds, as plain values.
pub open spec fn tables_view(tables: Seq<(Worker, TaskSharedStore)>) -> Seq<(Worker, Seq<u64>)> {
    Seq::new(tables.len(), |k: int| (tables[k].0, tables[k].1@))
}

/// What a list of tasks holds, as plain values.
pub open spec fn tasks_view(tasks: Seq<Task>) -> Seq<TaskView> {
    Seq::new(tasks.len(), |k: int| tasks[k]@)
}

/// The sub-task that every worker of a distributed task receives: the same payload, no
/// longer to be distributed.
pub open spec fn sub_task(task: TaskView) -> TaskView {
    TaskView { payload: task.payload, distribution: TaskDistributionConfig::NotDistributed }
}

/// A copy of `bytes`.
pub fn copy_bytes(bytes: &Vec<u8>) -> (copy: Vec<u8>)
    ensures
        copy@ == bytes@,
{
    let mut copy: Vec<u8> = Vec::new();
    let mut i: usize = 0;
    while i < bytes.len()
        invariant
            i <= bytes.len(),
            copy@ == bytes@.subrange(0, i as int),
        decreases bytes.len() - i,
    {
        copy.push(bytes[i]);
        assert(copy@ == bytes@.subrange(0, i + 1));
        i += 1;
    }
    assert(bytes@.subrange(0, bytes@.len() as int) == bytes@);
    copy
}

impl Task {
    /// A copy of the task.
    pub fn duplicate(&self) -> (copy: Task)
        ensures
            copy@ == self@,
    {
        Task { payload: copy_bytes(&self.payload), distribution: self.distribution }
    }

    /// The distribution policy of the task.
    pub fn distribution(&self) -> (config: TaskDistributionConfig)
        ensures
            config == self@.distribution,
    {
        self.distribution
    }

    /// The sub-tasks of the task for a store that was cut as `split_config` says: one per
    /// part, each the `sub_task` of it.
    pub fn split_task(&self, split_config: &SplitConfig) -> (tasks: Vec<Task>)
        ensures
            tasks_view(tasks@) == Seq::new(
                split_config.num_workers as nat,
                |k: int| sub_task(self@),
            ),
    {
        let mut tasks: Vec<Task> = Vec::new();
        let mut k: usize = 0;
        while k < split_config.num_workers
            invariant
                k <= split_config.num_workers,
                tasks@.len() == k,
                forall|j: int| 0 <= j < k ==> (#[trigger] tasks@[j])@ == sub_task(self@),
            decreases split_config.num_workers - k,
        {
            tasks.push(
                Task {
                    payload: copy_bytes(&self.payload),
                    distribution: TaskDistributionConfig::NotDistributed,
                },
            );
            k += 1;
        }
        assert(tasks_view(tasks@) =~= Seq::new(
            split_config.num_workers as nat,
            |k: int| sub_task(self@),
        ));
        tasks
    }
}

impl TaskSharedStore {
    /// Cuts the store into as many contiguous parts as `distribution` asks for and pairs
    /// part `k` with the worker at position `k` of `worker_list`. The parts differ in size
    /// by at most one batch. The request is refused when it asks for no partition or for more
    /// partitions than `worker_list` has workers.
    pub fn distribute(
        self,
        distribution: &StateBatchDistribution,
        worker_list: &WorkerAllocation,
    ) -> (res: Result<(Vec<(Worker, TaskSharedStore)>, SplitConfig), Error>)
        ensures
            res is Ok <==> 0 < distribution.partitions <= worker_list@.len(),
            res matches Ok((tables, config)) ==> {
                &&& tables_view(tables@) == distributed_tables(
                    self@,
                    worker_list@,
                    distribution.partitions as int,
                    distribution.partitions as int,
                )
                &&& config.num_workers == distribution.partitions
                &&& config.batch_distribution@ == part_lens(
                    self@.len() as int,
                    distribution.partitions as int,
                    distribution.partitions as int,
                )
            },
            res matches Err(e) ==> e == (Error::InvalidDistribution {
                partitions: distribution.partitions,
                workers: worker_list@.len() as usize,
            }),
    {
        let parts = distribution.partitions;
        let workers = worker_list.len();
        if parts == 0 || parts > workers {
            return Err(Error::InvalidDistribution { partitions: parts, workers });
        }
        let total = self.batches.len();
        let quotient = total / parts;
        let remainder = total % parts;
        let mut tables: Vec<(Worker, TaskSharedStore)> = Vec::new();
        let mut sizes: Vec<usize> = Vec::new();
        let mut start: usize = 0;
        let mut k: usize = 0;
        while k < parts
            invariant
                0 < parts <= worker_list@.len(),
                k <= parts,
                total == self.batches@.len(),
                quotient == total / parts,
                remainder == total % parts,
                start == part_start(total as int, parts as int, k as int),
                tables@.len() == k,
                sizes@.len() == k,
                tables_view(tables@) == distributed_tables(
                    self@,
                    worker_list@,
                    parts as int,
                    k as int,
                ),
                sizes@ == part_lens(total as int, parts as int, k as int),
            decreases parts - k,
        {
            proof {
                lemma_part_start(total as int, parts as int, k as int);
                lemma_part_start(total as int, parts as int, k + 1);
            }
            let size = if k < remainder {
                quotient + 1
            } else {
                quotient
            };
            let end = start + size;
            let mut part: Vec<u64> = Vec::new();
            let mut i: usize = start;
            while i < end
                invariant
                    start <= i <= end <= self.batches@.len(),
                    part@ == self.batches@.subrange(start as int, i as int),
                decreases end - i,
            {
                part.push(self.batches[i]);
                assert(part@ == self.batches@.subrange(start as int, i + 1));
                i += 1;
            }
            let worker = worker_list.worker_at(k);
            let ghost before_tables = tables@;
            let ghost before_sizes = sizes@;
            tables.push((worker, TaskSharedStore { batches: part }));
            sizes.push(size);
            assert(tables_view(tables@) =~= distributed_tables(
                self@,
                worker_list@,
                parts as int,
                k + 1,
            )) by {
                assert forall|j: int| 0 <= j < k + 1 implies tables_view(tables@)[j]
                    == distributed_tables(self@, worker_list@, parts as int, k + 1)[j] by {
                    if j < k {
                        assert(tables@[j] == before_tables[j]);
                        assert(tables_view(before_tables)[j] == distributed_tables(
                            self@,
                            worker_list@,
                            parts as int,
                            k as int,
                        )[j]);
                    }
                }
            }
            assert(sizes@ =~= part_lens(total as int, parts as int, k + 1)) by {
                assert forall|j: int| 0 <= j < k + 1 implies sizes@[j] == part_lens(
                    total as int,
                    parts as int,
                    k + 1,
                )[j] by {
                    if j < k {
                        assert(sizes@[j] == before_sizes[j]);
                    }
                }
            }
            start = end;
            k += 1;
        }
        Ok((tables, SplitConfig { num_workers: parts, batch_distribution: sizes }))
    }
}

/// Where part `k` starts, in closed form; no part reaches beyond the data.
pub proof fn lemma_part_start(total: int, parts: int, k: int)
    requires
        0 <= total,
        0 < parts,
        0 <= k <= parts,
    ensures
        part_start(total, parts, k) == k * (total / parts) + if k < total % parts {
            k
        } else {
            total % parts
        },
        0 <= part_start(total, parts, k) <= total,
        k == parts ==> part_start(total, parts, k) == total,
    decreases k,
{
    let q = total / parts;
    let r = total % parts;
    lemma_fundamental_div_mod(total, parts);
    assert(total == parts * q + r);
    assert(0 <= r < parts);
    assert(0 <= q) by (nonlinear_arith)
        requires
            total == parts * q + r,
            0 <= r < parts,
            0 < parts,
            0 <= total,
    ;
    if k > 0 {
        lemma_part_start(total, parts, k - 1);
        assert(k * q == (k - 1) * q + q) by (nonlinear_arith);
        assert(part_start(total, parts, k) == part_start(total, parts, k - 1) + part_len(
            total,
            parts,
            k - 1,
        ));
    } else {
        assert(k * q == 0) by (nonlinear_arith)
            requires
                k == 0,
        ;
    }
    assert(k * q <= parts * q) by (nonlinear_arith)
        requires
            0 <= k <= parts,
            0 <= q,
    ;
    assert(0 <= k * q) by (nonlinear_arith)
        requires
            0 <= k,
            0 <= q,
    ;
}

/// The starts of the parts never go backwards.
pub proof fn lemma_part_start_monotone(total: int, parts: int, j: int, k: int)
    requires
        0 <= total,
        0 < parts,
        0 <= j <= k,
    ensures
        part_start(total, parts, j) <= part_start(total, parts, k),
    decreases k - j,
{
    if j < k {
        lemma_part_start_monotone(total, parts, j, k - 1);
        assert(part_len(total, parts, k - 1) >= 0) by {
            lemma_fundamental_div_mod(total, parts);
            let q = total / parts;
            let r = total % parts;
            assert(0 <= q) by (nonlinear_arith)
                requires
                    total == parts * q + r,
                    0 <= r < parts,
                    0 < parts,
                    0 <= total,
            ;
        }
    }
}

} // verus!
