use webserver::ThreadPool;
use webserver::WorkerEvent;
use webserver::WorkerState;
use webserver::worker_step;

#[test]
fn new_pool_has_size_workers() {
    let p = ThreadPool::new(3);
    assert_eq!(p.workers.len(), 3);
    for (i, w) in p.workers.iter().enumerate() {
        assert_eq!(w.id, i);
        assert!(w.alive);
        assert!(!w.failed);
        assert_eq!(w.state, WorkerState::WaitingForJob);
    }
    assert!(p.sender_present);
    assert_eq!(p.pending.len(), 0);
    assert_eq!(p.completed.len(), 0);
    assert_eq!(p.lost.len(), 0);
}

#[test]
fn worker_step_follows_the_transition_table() {
    let waiting = WorkerState::WaitingForJob;
    assert_eq!(
        worker_step(waiting, WorkerEvent::Received { job: 5 }),
        WorkerState::Executing { job: 5 },
    );
    assert_eq!(worker_step(waiting, WorkerEvent::Closed), WorkerState::ShutDown);
    assert_eq!(worker_step(waiting, WorkerEvent::LockFailed), WorkerState::ShutDown);
    let executing = WorkerState::Executing { job: 5 };
    assert_eq!(worker_step(executing, WorkerEvent::Finished), WorkerState::WaitingForJob);
    assert_eq!(worker_step(executing, WorkerEvent::Panicked), WorkerState::ShutDown);
}

#[test]
fn five_jobs_on_two_workers_complete_each_exactly_once() {
    let mut p = ThreadPool::new(2);
    for j in 0..5u64 {
        p.execute(j);
    }
    assert_eq!(p.pending, vec![0, 1, 2, 3, 4]);

    assert_eq!(p.deliver(0), Some(0));
    assert_eq!(p.deliver(1), Some(1));
    p.finish_job(1);
    assert_eq!(p.deliver(1), Some(2));
    p.finish_job(0);
    assert_eq!(p.deliver(0), Some(3));
    p.finish_job(0);
    assert_eq!(p.deliver(0), Some(4));
    p.finish_job(1);
    p.finish_job(0);

    p.shutdown_begin();
    assert_eq!(p.deliver(0), None);
    assert_eq!(p.deliver(1), None);
    p.join_worker(0);
    p.join_worker(1);

    assert_eq!(p.pending.len(), 0);
    assert_eq!(p.lost.len(), 0);
    let mut done = p.completed.clone();
    done.sort();
    assert_eq!(done, vec![0, 1, 2, 3, 4]);
}

#[test]
fn panicking_job_keeps_the_queue_open_but_executes_nothing_more() {
    let mut p = ThreadPool::new(1);
    p.execute(7);
    assert_eq!(p.deliver(0), Some(7));
    p.job_panicked(0);

    p.execute(8);
    p.execute(9);
    assert_eq!(p.pending, vec![8, 9]);
    assert_eq!(p.completed.len(), 0);
    assert_eq!(p.lost, vec![7]);
    assert!(p.workers[0].failed);
    assert_eq!(p.workers[0].state, WorkerState::ShutDown);

    p.shutdown_begin();
    p.join_worker(0);
    assert_eq!(p.completed.len(), 0);
}

#[test]
fn empty_pool_tears_down_promptly() {
    let mut p = ThreadPool::new(4);
    p.shutdown_begin();
    assert!(!p.sender_present);
    for i in 0..4 {
        assert_eq!(p.deliver(i), None);
    }
    for i in 0..4 {
        p.join_worker(i);
    }
    for w in p.workers.iter() {
        assert_eq!(w.state, WorkerState::ShutDown);
        assert!(!w.failed);
        assert!(!w.alive);
    }
    assert_eq!(p.pending.len(), 0);
    assert_eq!(p.completed.len(), 0);
    assert_eq!(p.lost.len(), 0);
}

#[test]
fn lock_failure_shuts_one_worker_down() {
    let mut p = ThreadPool::new(2);
    p.lock_failed(1);
    assert_eq!(p.workers[1].state, WorkerState::ShutDown);
    assert!(p.workers[1].failed);
    assert_eq!(p.workers[0].state, WorkerState::WaitingForJob);

    p.execute(3);
    assert_eq!(p.deliver(0), Some(3));
    p.finish_job(0);
    assert_eq!(p.completed, vec![3]);
}

#[test]
fn spawn_failure_leaves_the_pool_usable() {
    let mut p = ThreadPool::new(2);
    p.spawn_failed(1);
    assert_eq!(p.workers[1].state, WorkerState::ShutDown);
    assert!(!p.workers[1].alive);
    assert!(p.workers[1].failed);

    p.execute(1);
    assert_eq!(p.deliver(0), Some(1));
    p.finish_job(0);
    assert_eq!(p.completed, vec![1]);
}

#[test]
fn teardown_drains_jobs_still_queued() {
    let mut p = ThreadPool::new(1);
    p.execute(10);
    p.execute(11);
    p.shutdown_begin();
    assert_eq!(p.deliver(0), Some(10));
    p.finish_job(0);
    assert_eq!(p.deliver(0), Some(11));
    p.finish_job(0);
    assert_eq!(p.deliver(0), None);
    p.join_worker(0);
    assert_eq!(p.completed, vec![10, 11]);
    assert_eq!(p.pending.len(), 0);
}
