use std::cell::RefCell;
use surff::channel::{Channel, RecvError};
use surff::message::Message;
use surff::pool::{PoolState, ThreadPool};
use surff::worker::{serve, Worker, WorkerStatus};

#[test]
fn new_pool_has_size_workers_numbered_from_zero() {
    let pool = ThreadPool::new(4, |id| id * 10);
    assert_eq!(pool.size(), 4);
    assert_eq!(pool.worker_ids(), vec![0, 1, 2, 3]);
    assert_eq!(pool.state(), PoolState::Running);
}

#[test]
fn new_pool_of_one_worker() {
    let pool = ThreadPool::new(1, |id| id);
    assert_eq!(pool.size(), 1);
    assert_eq!(pool.worker_ids(), vec![0]);
}

#[test]
fn worker_ids_are_distinct_and_below_size() {
    for size in 1..20usize {
        let pool = ThreadPool::new(size, |_| ());
        let ids = pool.worker_ids();
        assert_eq!(ids.len(), size);
        for (i, id) in ids.iter().enumerate() {
            assert!(*id < size);
            for other in &ids[i + 1..] {
                assert_ne!(id, other);
            }
        }
    }
}

#[test]
fn new_spawns_each_worker_once_in_order() {
    let spawned = RefCell::new(Vec::new());
    let pool = ThreadPool::new(5, |id| {
        spawned.borrow_mut().push(id);
        id
    });
    assert_eq!(*spawned.borrow(), vec![0, 1, 2, 3, 4]);
    assert_eq!(pool.size(), 5);
}

#[test]
fn worker_keeps_the_handle_that_spawn_returned() {
    let mut worker = Worker::new(3, |id| id + 100);
    assert_eq!(worker.id(), 3);
    assert!(worker.has_thread());
    assert_eq!(worker.take_thread(), Some(103));
    assert!(!worker.has_thread());
    assert_eq!(worker.take_thread(), None);
    assert_eq!(worker.id(), 3);
}

#[test]
fn execute_puts_the_job_at_the_end_of_the_queue() {
    let pool = ThreadPool::new(2, |id| id);
    let mut channel: Channel<u32> = Channel::new();
    pool.execute(&mut channel, 10);
    pool.execute(&mut channel, 20);
    pool.execute(&mut channel, 30);
    assert_eq!(channel.pending(), 3);
    assert_eq!(channel.receivers(), 1);
    assert!(channel.sender_alive());
    for expected in [10u32, 20, 30] {
        match channel.recv() {
            Ok(Message::NewJob(job)) => assert_eq!(job, expected),
            _ => panic!("a job was expected"),
        }
    }
    assert_eq!(channel.recv().err(), Some(RecvError::Empty));
    assert_eq!(pool.state(), PoolState::Running);
}

#[test]
fn serve_runs_the_job_before_it_returns() {
    let ran = RefCell::new(0u32);
    let status = serve(Message::NewJob(|| *ran.borrow_mut() += 1));
    assert_eq!(status, WorkerStatus::Listening);
    assert_eq!(*ran.borrow(), 1);
}

#[test]
fn serve_exits_on_the_stop_signal() {
    let stop: Message<fn()> = Message::Terminate;
    assert_eq!(serve(stop), WorkerStatus::Exited);
}

#[test]
fn begin_shutdown_sends_one_stop_signal_for_each_worker() {
    let mut pool = ThreadPool::new(3, |id| id);
    let mut channel: Channel<u32> = Channel::new();
    pool.execute(&mut channel, 1);
    pool.execute(&mut channel, 2);
    pool.begin_shutdown(&mut channel);
    assert_eq!(pool.state(), PoolState::Draining);
    assert_eq!(pool.size(), 3);
    assert_eq!(pool.worker_ids(), vec![0, 1, 2]);
    assert_eq!(channel.pending(), 5);
    assert!(matches!(channel.recv(), Ok(Message::NewJob(1))));
    assert!(matches!(channel.recv(), Ok(Message::NewJob(2))));
    for _ in 0..3 {
        assert!(matches!(channel.recv(), Ok(Message::Terminate)));
    }
    assert_eq!(channel.recv().err(), Some(RecvError::Empty));
}

#[test]
fn join_workers_joins_every_handle_in_order() {
    let mut pool = ThreadPool::new(4, |id| id + 100);
    let mut channel: Channel<u32> = Channel::new();
    pool.begin_shutdown(&mut channel);
    let joined = RefCell::new(Vec::new());
    pool.join_workers(|handle| joined.borrow_mut().push(handle));
    assert_eq!(*joined.borrow(), vec![100, 101, 102, 103]);
    assert_eq!(pool.state(), PoolState::Joined);
    assert_eq!(pool.size(), 4);
    assert_eq!(pool.worker_ids(), vec![0, 1, 2, 3]);
}

#[test]
fn join_workers_a_second_time_finds_no_handle() {
    let mut pool = ThreadPool::new(2, |id| id);
    let mut channel: Channel<u32> = Channel::new();
    pool.begin_shutdown(&mut channel);
    let joined = RefCell::new(0u32);
    pool.join_workers(|_| *joined.borrow_mut() += 1);
    assert_eq!(*joined.borrow(), 2);
    pool.join_workers(|_| *joined.borrow_mut() += 1);
    assert_eq!(*joined.borrow(), 2);
    assert_eq!(pool.state(), PoolState::Joined);
}
