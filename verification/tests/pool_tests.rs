use worker_pool::pool::PoolError;
use worker_pool::pool::ThreadPool;
use worker_pool::protocol::ControlMessage;
use worker_pool::protocol::Task;
use worker_pool::protocol::WorkerAction;
use worker_pool::protocol::worker_step;
use worker_pool::worker::Worker;
use worker_pool::worker::WorkerState;

fn task(id: u64) -> Task {
    Task { id }
}

#[test]
fn pool_of_zero_workers_is_refused() {
    let r = ThreadPool::new(0);
    assert!(matches!(r, Err(PoolError::InvalidConfiguration)));
}

#[test]
fn pool_starts_with_running_workers_and_empty_queue() {
    let p = ThreadPool::new(3).unwrap();
    assert_eq!(p.workers.len(), 3);
    assert_eq!(p.queue.len(), 0);
    for (i, w) in p.workers.iter().enumerate() {
        assert_eq!(w.id, i);
        assert_eq!(w.state, WorkerState::Running);
    }
}

#[test]
fn execute_enqueues_at_the_back_in_order() {
    let mut p = ThreadPool::new(2).unwrap();
    p.execute(task(5));
    p.execute(task(6));
    assert_eq!(
        p.queue,
        vec![
            ControlMessage::NewTask(task(5)),
            ControlMessage::NewTask(task(6)),
        ]
    );
    assert_eq!(p.workers.len(), 2);
}

#[test]
fn worker_step_runs_a_new_task_and_exits_on_terminate() {
    let a = worker_step(ControlMessage::NewTask(task(9)));
    assert_eq!(a, WorkerAction::Run(task(9)));
    let b = worker_step(ControlMessage::Terminate);
    assert_eq!(b, WorkerAction::Exit);
}

#[test]
fn worker_join_consumes_a_terminated_handle() {
    let w = Worker::new(4);
    assert_eq!(w.id, 4);
    assert_eq!(w.state, WorkerState::Running);
    let t = Worker {
        id: 4,
        state: WorkerState::Terminated,
    };
    let j = t.join();
    assert_eq!(j.id, 4);
    assert_eq!(j.state, WorkerState::Joined);
}

#[test]
fn teardown_with_no_tasks_completes_and_joins_every_worker() {
    let mut p = ThreadPool::new(3).unwrap();
    let executed = p.teardown();
    assert!(executed.is_empty());
    assert_eq!(p.queue.len(), 0);
    assert_eq!(p.workers.len(), 3);
    for w in &p.workers {
        assert_eq!(w.state, WorkerState::Joined);
    }
}

#[test]
fn single_worker_begins_tasks_in_submission_order() {
    let mut p = ThreadPool::new(1).unwrap();
    p.execute(task(1));
    p.execute(task(2));
    p.execute(task(3));
    let executed = p.teardown();
    assert_eq!(executed, vec![task(1), task(2), task(3)]);
}

#[test]
fn teardown_sends_one_terminate_per_worker() {
    let mut p = ThreadPool::new(4).unwrap();
    p.execute(task(11));
    p.send_terminates();
    let terminates = p
        .queue
        .iter()
        .filter(|m| matches!(m, ControlMessage::Terminate))
        .count();
    assert_eq!(terminates, 4);
    assert_eq!(p.queue.len(), 5);
    let executed = p.run_workers();
    assert_eq!(executed, vec![task(11)]);
    for w in &p.workers {
        assert_eq!(w.state, WorkerState::Terminated);
    }
    p.join_all();
    for w in &p.workers {
        assert_eq!(w.state, WorkerState::Joined);
    }
}

#[test]
fn eight_tasks_on_four_workers_each_run_exactly_once() {
    let mut p = ThreadPool::new(4).unwrap();
    for id in 0..8u64 {
        p.execute(task(id));
    }
    let executed = p.teardown();
    assert_eq!(executed.len(), 8);
    for id in 0..8u64 {
        let count = executed.iter().filter(|t| t.id == id).count();
        assert_eq!(count, 1);
    }
    assert_eq!(p.workers.len(), 4);
    for w in &p.workers {
        assert_eq!(w.state, WorkerState::Joined);
    }
}

#[test]
fn every_submitted_task_runs_exactly_once_for_several_pool_sizes() {
    for size in 1..6usize {
        let mut p = ThreadPool::new(size).unwrap();
        let submitted: Vec<Task> = (100..100 + 2 * size as u64).map(task).collect();
        for t in &submitted {
            p.execute(*t);
        }
        let executed = p.teardown();
        assert_eq!(executed, submitted);
        assert_eq!(p.workers.len(), size);
        for w in &p.workers {
            assert_eq!(w.state, WorkerState::Joined);
        }
    }
}
