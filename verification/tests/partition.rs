use workerpool::distribution::{distributed_worker_tasks, single_worker_task, zip_worker_tasks};
use workerpool::error::Error;
use workerpool::pending::DistributionController;
use workerpool::runs::{SimulationRuns, WorkerAllocation};
use workerpool::task::{
    copy_bytes, SplitConfig, StateBatchDistribution, Task, TaskDistributionConfig,
    TaskSharedStore, WorkerTask,
};
use workerpool::types::Worker;

fn workers(indices: &[usize]) -> Vec<Worker> {
    indices.iter().map(|i| Worker::new(*i)).collect()
}

fn allocation(indices: &[usize]) -> WorkerAllocation {
    WorkerAllocation::new(workers(indices)).expect("the indices are distinct")
}

fn parts_of(batches: Vec<u64>, partitions: usize, indices: &[usize]) -> Vec<(usize, Vec<u64>)> {
    let (tables, _) = TaskSharedStore { batches }
        .distribute(&StateBatchDistribution { partitions }, &allocation(indices))
        .expect("the allocation serves the partitions");
    tables.into_iter().map(|(worker, store)| (worker.index(), store.batches)).collect()
}

#[test]
fn a_store_is_cut_into_contiguous_parts_that_differ_by_at_most_one() {
    assert_eq!(
        parts_of(vec![10, 11, 12, 13, 14, 15, 16], 3, &[5, 6, 7]),
        vec![(5, vec![10, 11, 12]), (6, vec![13, 14]), (7, vec![15, 16])]
    );
    assert_eq!(
        parts_of(vec![1, 2, 3, 4, 5, 6, 7, 8], 3, &[0, 1, 2, 3]),
        vec![(0, vec![1, 2, 3]), (1, vec![4, 5, 6]), (2, vec![7, 8])]
    );
    assert_eq!(parts_of(vec![1, 2, 3, 4], 2, &[9, 8]), vec![(9, vec![1, 2]), (8, vec![3, 4])]);
    assert_eq!(parts_of(vec![1, 2, 3], 1, &[4]), vec![(4, vec![1, 2, 3])]);
}

#[test]
fn a_store_with_fewer_batches_than_parts_leaves_the_last_parts_empty() {
    assert_eq!(
        parts_of(vec![7, 8], 4, &[0, 1, 2, 3]),
        vec![(0, vec![7]), (1, vec![8]), (2, vec![]), (3, vec![])]
    );
    assert_eq!(parts_of(vec![], 2, &[0, 1]), vec![(0, vec![]), (1, vec![])]);
}

#[test]
fn the_parts_of_a_store_cover_it_exactly() {
    for total in 0..40u64 {
        for partitions in 1..9usize {
            let batches: Vec<u64> = (0..total).map(|b| b * 3 + 1).collect();
            let parts = parts_of(batches.clone(), partitions, &[0, 1, 2, 3, 4, 5, 6, 7]);
            assert_eq!(parts.len(), partitions);
            let rejoined: Vec<u64> = parts.iter().flat_map(|(_, part)| part.clone()).collect();
            assert_eq!(rejoined, batches);
            let longest = parts.iter().map(|(_, part)| part.len()).max().unwrap();
            let shortest = parts.iter().map(|(_, part)| part.len()).min().unwrap();
            assert!(longest - shortest <= 1);
            for (k, (worker, _)) in parts.iter().enumerate() {
                assert_eq!(*worker, k);
            }
        }
    }
}

#[test]
fn the_split_says_how_many_batches_each_part_holds() {
    let (_, config) = TaskSharedStore { batches: vec![1, 2, 3, 4, 5] }
        .distribute(&StateBatchDistribution { partitions: 3 }, &allocation(&[0, 1, 2]))
        .unwrap();
    assert_eq!(config, SplitConfig { num_workers: 3, batch_distribution: vec![2, 2, 1] });
}

#[test]
fn a_distribution_without_partitions_or_with_too_many_is_refused() {
    let store = || TaskSharedStore { batches: vec![1, 2, 3] };
    assert_eq!(
        store().distribute(&StateBatchDistribution { partitions: 0 }, &allocation(&[0, 1])),
        Err(Error::InvalidDistribution { partitions: 0, workers: 2 })
    );
    assert_eq!(
        store().distribute(&StateBatchDistribution { partitions: 3 }, &allocation(&[0, 1])),
        Err(Error::InvalidDistribution { partitions: 3, workers: 2 })
    );
    assert!(store().distribute(&StateBatchDistribution { partitions: 2 }, &allocation(&[0, 1])).is_ok());
}

#[test]
fn a_task_is_split_into_one_sub_task_for_each_part() {
    let task = Task {
        payload: vec![1, 2, 3],
        distribution: TaskDistributionConfig::Distributed(StateBatchDistribution { partitions: 2 }),
    };
    let sub_tasks = task.split_task(&SplitConfig { num_workers: 2, batch_distribution: vec![1, 1] });
    let sub_task =
        || Task { payload: vec![1, 2, 3], distribution: TaskDistributionConfig::NotDistributed };
    assert_eq!(sub_tasks, vec![sub_task(), sub_task()]);
    assert!(task.split_task(&SplitConfig { num_workers: 0, batch_distribution: vec![] }).is_empty());
    assert_eq!(task.duplicate(), task);
    assert_eq!(task.distribution(), task.distribution);
    assert_eq!(copy_bytes(&vec![5, 6]), vec![5, 6]);
}

#[test]
fn sub_tasks_and_sub_stores_are_put_together_pair_by_pair() {
    let task = |p: u8| Task { payload: vec![p], distribution: TaskDistributionConfig::NotDistributed };
    let store = |b: u64| TaskSharedStore { batches: vec![b] };
    assert_eq!(
        zip_worker_tasks(
            3,
            vec![task(1), task(2)],
            vec![(Worker::new(8), store(10)), (Worker::new(9), store(20))]
        ),
        Ok(vec![
            (Worker::new(8), WorkerTask { task_id: 3, task: task(1), shared_store: store(10) }),
            (Worker::new(9), WorkerTask { task_id: 3, task: task(2), shared_store: store(20) }),
        ])
    );
    assert_eq!(zip_worker_tasks(3, vec![], vec![]), Ok(vec![]));
}

#[test]
fn a_different_number_of_sub_tasks_and_sub_stores_is_a_mismatch() {
    let task = || Task { payload: vec![], distribution: TaskDistributionConfig::NotDistributed };
    let store = || TaskSharedStore { batches: vec![] };
    assert_eq!(
        zip_worker_tasks(1, vec![task(), task()], vec![(Worker::new(0), store())]),
        Err(Error::DistributionMismatch { tasks: 2, stores: 1 })
    );
    assert_eq!(
        zip_worker_tasks(1, vec![], vec![(Worker::new(0), store())]),
        Err(Error::DistributionMismatch { tasks: 0, stores: 1 })
    );
}

#[test]
fn a_single_worker_gets_the_whole_task() {
    let (triples, controller) = single_worker_task(
        Worker::new(4),
        11,
        TaskSharedStore { batches: vec![1, 2] },
        Task { payload: vec![9], distribution: TaskDistributionConfig::NotDistributed },
    );
    assert_eq!(
        triples,
        vec![(
            Worker::new(4),
            WorkerTask {
                task_id: 11,
                task: Task { payload: vec![9], distribution: TaskDistributionConfig::NotDistributed },
                shared_store: TaskSharedStore { batches: vec![1, 2] },
            }
        )]
    );
    assert_eq!(controller, DistributionController::Single { active_worker: Worker::new(4) });
}

#[test]
fn a_distributed_task_keeps_the_workers_with_a_part_and_the_task_as_it_was() {
    let distribution = StateBatchDistribution { partitions: 2 };
    let task = || Task {
        payload: vec![9],
        distribution: TaskDistributionConfig::Distributed(distribution),
    };
    let (triples, controller) = distributed_worker_tasks(
        &allocation(&[3, 1, 2]),
        &distribution,
        11,
        TaskSharedStore { batches: vec![1, 2, 3] },
        task(),
    )
    .unwrap();
    assert_eq!(triples.len(), 2);
    assert_eq!(triples[0].0, Worker::new(3));
    assert_eq!(triples[1].0, Worker::new(1));
    assert_eq!(triples[0].1.shared_store, TaskSharedStore { batches: vec![1, 2] });
    assert_eq!(triples[1].1.shared_store, TaskSharedStore { batches: vec![3] });
    assert_eq!(
        controller,
        DistributionController::Distributed {
            active_workers: workers(&[3, 1]),
            received_results: vec![],
            reference_task: task(),
        }
    );
}

#[test]
fn an_allocation_is_an_ordered_set() {
    assert_eq!(WorkerAllocation::new(vec![]), None);
    assert_eq!(WorkerAllocation::new(workers(&[1, 2, 1])), None);
    assert_eq!(WorkerAllocation::new(workers(&[0, 0])), None);
    let allocation = WorkerAllocation::new(workers(&[2, 0, 1])).expect("the indices are distinct");
    assert_eq!(allocation.len(), 3);
    assert_eq!(allocation.workers(), workers(&[2, 0, 1]));
    assert_eq!(allocation.get(1), Some(Worker::new(0)));
    assert_eq!(allocation.get(3), None);
    assert_eq!(allocation.get(2), Some(Worker::new(1)));
}

#[test]
fn a_random_worker_is_one_of_the_allocation() {
    let allocation = allocation(&[7, 3, 5]);
    let mut seen = [false; 3];
    for _ in 0..400 {
        let worker = allocation.random_worker();
        let position = [7usize, 3, 5]
            .iter()
            .position(|index| *index == worker.index())
            .expect("the worker is one of the allocation");
        seen[position] = true;
    }
    assert_eq!(seen, [true, true, true]);
    assert_eq!(self::allocation(&[9]).random_worker(), Worker::new(9));
}

#[test]
fn the_registry_keeps_the_allocation_of_each_run() {
    let mut runs = SimulationRuns::new();
    assert_eq!(runs.get_worker_allocation(1), Err(Error::MissingSimulationRun(1)));
    runs.push(1, allocation(&[0, 1]));
    runs.push(2, allocation(&[2]));
    assert_eq!(runs.get_worker_allocation(1), Ok(&allocation(&[0, 1])));
    assert_eq!(runs.get_worker_allocation(2), Ok(&allocation(&[2])));
    assert_eq!(runs.get_worker_allocation(3), Err(Error::MissingSimulationRun(3)));
    runs.push(1, allocation(&[3]));
    assert_eq!(runs.get_worker_allocation(1), Ok(&allocation(&[3])));
}
