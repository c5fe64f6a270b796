use workerpool::comms::{WorkerPoolCommsWithWorkers, WorkerPoolMsgSend, WorkerPoolToExpCtlMsg, WorkerPoolToWorkerMsg};
use workerpool::error::Error;
use workerpool::pending::{
    contains_worker, find_report, merge_results, DistributionController, PendingWorkerPoolTask,
    PendingWorkerPoolTasks, ReplyChannel, ReplyStatus, TaskResult, TaskResultOrCancelled,
};
use workerpool::task::{Task, TaskDistributionConfig};
use workerpool::types::Worker;

fn done(bytes: &[u8]) -> TaskResultOrCancelled {
    TaskResultOrCancelled::Completed(bytes.to_vec())
}

fn workers(indices: &[usize]) -> Vec<Worker> {
    indices.iter().map(|i| Worker::new(*i)).collect()
}

fn split_among(indices: &[usize]) -> DistributionController {
    DistributionController::Distributed {
        active_workers: workers(indices),
        received_results: vec![],
        reference_task: Task { payload: vec![1], distribution: TaskDistributionConfig::NotDistributed },
    }
}

fn replay(
    mut controller: DistributionController,
    replies: Vec<(usize, TaskResultOrCancelled)>,
) -> (DistributionController, Vec<TaskResult>) {
    let mut results = Vec::new();
    for (worker, outcome) in replies {
        let (next, result) = controller.handle_reply(Worker::new(worker), outcome);
        controller = next;
        results.extend(result);
    }
    (controller, results)
}

#[test]
fn a_split_task_ends_with_the_report_that_completes_the_set() {
    let (controller, results) = replay(
        split_among(&[4, 2, 9]),
        vec![(9, done(&[3])), (4, TaskResultOrCancelled::Cancelled), (2, done(&[2]))],
    );
    assert_eq!(
        results,
        vec![TaskResult { parts: vec![TaskResultOrCancelled::Cancelled, done(&[2]), done(&[3])] }]
    );
    match controller {
        DistributionController::Distributed { active_workers, received_results, .. } => {
            assert_eq!(active_workers, workers(&[4, 2, 9]));
            assert_eq!(
                received_results,
                vec![
                    (Worker::new(9), done(&[3])),
                    (Worker::new(4), TaskResultOrCancelled::Cancelled),
                    (Worker::new(2), done(&[2])),
                ]
            );
        },
        other => panic!("the controller stays distributed, not {other:?}"),
    }
}

#[test]
fn a_split_task_counts_the_first_report_of_each_of_its_workers_only() {
    let (controller, results) = replay(
        split_among(&[1, 2]),
        vec![
            (1, done(&[1])),
            (1, done(&[11])),
            (3, done(&[3])),
            (1, TaskResultOrCancelled::Cancelled),
        ],
    );
    assert!(results.is_empty());
    match &controller {
        DistributionController::Distributed { received_results, .. } => {
            assert_eq!(received_results, &vec![(Worker::new(1), done(&[1]))]);
        },
        other => panic!("the controller stays distributed, not {other:?}"),
    }
    let (_, results) =
        replay(controller, vec![(2, done(&[2])), (2, done(&[22])), (1, done(&[111]))]);
    assert_eq!(results, vec![TaskResult { parts: vec![done(&[1]), done(&[2])] }]);
}

#[test]
fn the_result_of_a_split_task_is_the_same_for_every_order_of_arrival() {
    let orders: [[usize; 3]; 6] =
        [[1, 2, 3], [1, 3, 2], [2, 1, 3], [2, 3, 1], [3, 1, 2], [3, 2, 1]];
    for order in orders {
        let replies = order.iter().map(|w| (*w, done(&[*w as u8 * 10]))).collect();
        let (_, results) = replay(split_among(&[1, 2, 3]), replies);
        assert_eq!(results, vec![TaskResult { parts: vec![done(&[10]), done(&[20]), done(&[30])] }]);
    }
}

#[test]
fn a_task_with_one_worker_ends_with_the_first_report_of_that_worker() {
    let single = || DistributionController::Single { active_worker: Worker::new(5) };
    let (controller, result) = single().handle_reply(Worker::new(4), done(&[1]));
    assert_eq!(controller, single());
    assert_eq!(result, None);
    let (controller, result) = single().handle_reply(Worker::new(5), TaskResultOrCancelled::Cancelled);
    assert_eq!(controller, single());
    assert_eq!(result, Some(TaskResult { parts: vec![TaskResultOrCancelled::Cancelled] }));
    let (_, result) = DistributionController::Unsplit.handle_reply(Worker::new(0), done(&[7]));
    assert_eq!(result, Some(TaskResult { parts: vec![done(&[7])] }));
}

#[test]
fn a_request_to_cancel_goes_to_every_worker_with_a_part() {
    assert_eq!(DistributionController::Unsplit.cancel_targets(), vec![]);
    assert_eq!(
        DistributionController::Single { active_worker: Worker::new(3) }.cancel_targets(),
        workers(&[3])
    );
    let (controller, _) = replay(split_among(&[2, 0, 1]), vec![(0, done(&[]))]);
    assert_eq!(controller.cancel_targets(), workers(&[2, 0, 1]));
}

#[test]
fn reports_are_found_by_their_worker() {
    let received = vec![
        (Worker::new(3), done(&[1])),
        (Worker::new(1), TaskResultOrCancelled::Cancelled),
        (Worker::new(3), done(&[2])),
    ];
    assert_eq!(find_report(&received, Worker::new(3)), Some(0));
    assert_eq!(find_report(&received, Worker::new(1)), Some(1));
    assert_eq!(find_report(&received, Worker::new(2)), None);
    assert!(contains_worker(&workers(&[1, 2]), Worker::new(2)));
    assert!(!contains_worker(&workers(&[1, 2]), Worker::new(0)));
    assert_eq!(merge_results(&workers(&[1, 2]), &received), None);
    assert_eq!(
        merge_results(&workers(&[1, 3]), &received),
        Some(TaskResult { parts: vec![TaskResultOrCancelled::Cancelled, done(&[1])] })
    );
    assert_eq!(merge_results(&vec![], &received), Some(TaskResult { parts: vec![] }));
    assert_eq!(done(&[1, 2]).duplicate(), done(&[1, 2]));
}

#[test]
fn the_table_keeps_a_task_until_it_is_taken_out() {
    let mut table = PendingWorkerPoolTasks::new();
    assert_eq!(table.len(), 0);
    assert_eq!(table.insert(1, ReplyChannel { id: 10 }, split_among(&[0, 1])), Ok(()));
    assert_eq!(
        table.insert(2, ReplyChannel { id: 20 }, DistributionController::Single { active_worker: Worker::new(1) }),
        Ok(())
    );
    assert_eq!(
        table.insert(1, ReplyChannel { id: 30 }, DistributionController::Unsplit),
        Err(Error::DuplicateTask(1))
    );
    assert_eq!(table.len(), 2);
    assert!(table.contains(1));
    assert!(!table.contains(3));

    assert_eq!(table.record_reply(Worker::new(0), 3, done(&[1])), ReplyStatus::UnknownTask);
    assert_eq!(table.record_reply(Worker::new(0), 1, done(&[1])), ReplyStatus::Pending);
    assert_eq!(table.record_reply(Worker::new(0), 1, done(&[9])), ReplyStatus::Pending);
    assert_eq!(table.record_reply(Worker::new(0), 2, done(&[9])), ReplyStatus::Pending);
    assert_eq!(
        table.record_reply(Worker::new(1), 1, TaskResultOrCancelled::Cancelled),
        ReplyStatus::Terminal(TaskResult { parts: vec![done(&[1]), TaskResultOrCancelled::Cancelled] })
    );
    assert!(table.contains(1));

    let task = table.remove(1).expect("the task is in the table");
    assert_eq!(task.task_id, 1);
    assert_eq!(task.comms, ReplyChannel { id: 10 });
    assert_eq!(table.remove(1), None);
    assert_eq!(table.record_reply(Worker::new(1), 1, done(&[1])), ReplyStatus::UnknownTask);
    assert_eq!(table.len(), 1);
    assert_eq!(table.cancel_targets(2), Some(workers(&[1])));
    assert_eq!(table.cancel_targets(1), None);
}

#[test]
fn requests_to_cancel_wait_for_the_next_poll() {
    let mut table = PendingWorkerPoolTasks::new();
    assert_eq!(table.poll_cancellations(), Vec::<u128>::new());
    table.request_cancel(3);
    table.request_cancel(1);
    table.request_cancel(3);
    assert_eq!(table.len(), 0);
    assert_eq!(table.poll_cancellations(), vec![3, 1, 3]);
    assert_eq!(table.poll_cancellations(), Vec::<u128>::new());
    table.request_cancel(8);
    assert_eq!(table.poll_cancellations(), vec![8]);
}

#[test]
fn a_pending_task_passes_reports_to_its_controller() {
    let task = PendingWorkerPoolTask::new(
        6,
        ReplyChannel { id: 1 },
        DistributionController::Single { active_worker: Worker::new(2) },
    );
    let (task, result) = task.handle_result_or_cancel_and_maybe_complete(Worker::new(1), done(&[1]));
    assert_eq!(result, None);
    let (task, result) = task.handle_result_or_cancel_and_maybe_complete(Worker::new(2), done(&[2]));
    assert_eq!(result, Some(TaskResult { parts: vec![done(&[2])] }));
    assert_eq!(task.task_id, 6);
    assert_eq!(task.comms, ReplyChannel { id: 1 });
}

#[test]
fn the_handles_queue_messages_for_the_workers_they_know() {
    let mut comms = WorkerPoolCommsWithWorkers::new_pool_comms(2);
    assert_eq!(comms.worker_count(), 2);
    assert_eq!(comms.send(1, WorkerPoolToWorkerMsg::cancel_task(4)), Ok(()));
    assert_eq!(comms.send(2, WorkerPoolToWorkerMsg::cancel_task(5)), Err(Error::MissingWorker(2)));
    assert_eq!(comms.send_all(WorkerPoolToWorkerMsg::sync(3, vec![1])), Ok(()));
    assert_eq!(
        comms.send_batch(vec![
            (0, WorkerPoolToWorkerMsg::kill()),
            (9, WorkerPoolToWorkerMsg::kill()),
            (1, WorkerPoolToWorkerMsg::kill()),
        ]),
        Err(Error::MissingWorker(9))
    );
    assert_eq!(
        comms.take_outgoing(),
        vec![
            (1, WorkerPoolToWorkerMsg::cancel_task(4)),
            (0, WorkerPoolToWorkerMsg::sync(3, vec![1])),
            (1, WorkerPoolToWorkerMsg::sync(3, vec![1])),
            (0, WorkerPoolToWorkerMsg::kill()),
        ]
    );
    assert!(comms.take_outgoing().is_empty());
    let msg = WorkerPoolToWorkerMsg::sync(1, vec![4, 5]);
    assert_eq!(msg.duplicate(), msg);
}

#[test]
fn the_line_to_the_experiment_keeps_the_order_of_its_messages() {
    let mut line = WorkerPoolMsgSend::new();
    line.send(None, WorkerPoolToExpCtlMsg::RunnerErrors(vec![1]));
    line.send(Some(2), WorkerPoolToExpCtlMsg::RunnerWarnings(vec![2]));
    assert_eq!(
        line.take(),
        vec![
            (None, WorkerPoolToExpCtlMsg::RunnerErrors(vec![1])),
            (Some(2), WorkerPoolToExpCtlMsg::RunnerWarnings(vec![2])),
        ]
    );
    assert!(line.take().is_empty());
}

#[test]
fn the_reports_of_all_parts_combine_into_one() {
    assert_eq!(
        TaskResult { parts: vec![done(&[1, 2]), done(&[]), done(&[3])] }.combine(),
        done(&[1, 2, 3])
    );
    assert_eq!(TaskResult { parts: vec![done(&[7])] }.combine(), done(&[7]));
    assert_eq!(TaskResult { parts: vec![] }.combine(), done(&[]));
    assert_eq!(
        TaskResult { parts: vec![done(&[1]), TaskResultOrCancelled::Cancelled, done(&[3])] }
            .combine(),
        TaskResultOrCancelled::Cancelled
    );
    assert_eq!(
        TaskResult { parts: vec![TaskResultOrCancelled::Cancelled] }.combine(),
        TaskResultOrCancelled::Cancelled
    );
}
