use hello::message::{directive, Directive, Message};
use hello::threadpool::ThreadPool;
use hello::worker::{Worker, WorkerStatus};

fn status(pool: &ThreadPool<usize>, id: usize) -> WorkerStatus {
    pool.worker(id).unwrap().status
}

#[test]
fn new_pool_has_waiting_workers_in_order() {
    let pool: ThreadPool<usize> = ThreadPool::new(3);
    assert_eq!(pool.size(), 3);
    assert_eq!(pool.queued(), 0);
    assert!(!pool.is_terminating());
    for id in 0..3 {
        assert_eq!(
            pool.worker(id),
            Some(Worker { id, status: WorkerStatus::Waiting, joinable: true })
        );
    }
    assert_eq!(pool.worker(3), None);
}

#[test]
fn new_worker_waits_with_its_handle_held() {
    assert_eq!(Worker::new(5), Worker { id: 5, status: WorkerStatus::Waiting, joinable: true });
}

#[test]
fn worker_rule_runs_jobs_and_obeys_the_order_to_stop() {
    assert_eq!(directive(Some(Message::NewJob(7u8))), Directive::Run(7u8));
    assert_eq!(directive(Some(Message::<u8>::Terminate)), Directive::Exit);
    assert_eq!(directive(None::<Message<u8>>), Directive::Exit);
}

#[test]
fn receive_on_empty_queue_keeps_the_worker_waiting() {
    let mut pool: ThreadPool<usize> = ThreadPool::new(2);
    assert_eq!(pool.receive(1), None);
    assert_eq!(status(&pool, 1), WorkerStatus::Waiting);
    assert_eq!(pool.queued(), 0);
}

#[test]
fn pool_accepts_many_jobs_without_any_worker_moving() {
    let mut pool: ThreadPool<usize> = ThreadPool::new(1);
    for job in 0..10_000 {
        pool.execute(job);
    }
    assert_eq!(pool.queued(), 10_000);
    assert_eq!(status(&pool, 0), WorkerStatus::Waiting);
    assert_eq!(pool.receive(0), Some(Directive::Run(0)));
    assert_eq!(pool.queued(), 9_999);
}

#[test]
fn jobs_begin_in_submission_order() {
    let mut pool: ThreadPool<usize> = ThreadPool::new(3);
    for job in [40, 10, 30, 20, 50] {
        pool.execute(job);
    }
    assert_eq!(pool.receive(2), Some(Directive::Run(40)));
    assert_eq!(pool.receive(0), Some(Directive::Run(10)));
    assert_eq!(pool.receive(1), Some(Directive::Run(30)));
    pool.complete(0);
    assert_eq!(pool.receive(0), Some(Directive::Run(20)));
    pool.complete(2);
    assert_eq!(pool.receive(2), Some(Directive::Run(50)));
    assert_eq!(pool.queued(), 0);
}

#[test]
fn mytest() {
    const THREAD_COUNT: usize = 10;

    let mut pool: ThreadPool<usize> = ThreadPool::new(THREAD_COUNT);

    // Keep all workers busy at the same time: each job carries its square
    // through the pool and is not completed.
    for i in 0..THREAD_COUNT {
        pool.execute(i * i);

        // Check the result
        let result = match pool.receive(i) {
            Some(Directive::Run(job)) => job,
            other => panic!("worker {} got {:?}", i, other),
        };
        assert_eq!(result, i * i);
    }
    for i in 0..THREAD_COUNT {
        assert_eq!(status(&pool, i), WorkerStatus::Running);
    }

    // Give one more task to the pool: it waits until a worker has finished.
    pool.execute(THREAD_COUNT);
    assert_eq!(pool.queued(), 1);
    pool.complete(4);
    assert_eq!(pool.receive(4), Some(Directive::Run(THREAD_COUNT)));
    assert_eq!(pool.queued(), 0);
}

#[test]
fn ten_jobs_run_side_by_side_on_ten_workers() {
    let mut pool: ThreadPool<usize> = ThreadPool::new(10);
    for i in 0..10 {
        pool.execute(i);
    }
    let mut squares = Vec::new();
    for id in 0..10 {
        match pool.receive(id) {
            Some(Directive::Run(i)) => squares.push(i * i),
            other => panic!("worker {} got {:?}", id, other),
        }
    }
    assert_eq!(squares, vec![0, 1, 4, 9, 16, 25, 36, 49, 64, 81]);
    assert!((0..10).all(|id| status(&pool, id) == WorkerStatus::Running));
    assert_eq!(pool.queued(), 0);
}

#[test]
fn hundred_jobs_are_all_run_before_shutdown_ends() {
    let mut pool: ThreadPool<usize> = ThreadPool::new(4);
    let mut list = Vec::new();
    for i in 0..100 {
        pool.execute(i);
    }
    pool.shutdown();
    assert!(pool.is_terminating());
    assert_eq!(pool.queued(), 104);
    let mut exited = 0;
    let mut turn = 0;
    while exited < 4 {
        let id = turn % 4;
        turn += 1;
        if status(&pool, id) != WorkerStatus::Waiting {
            continue;
        }
        match pool.receive(id) {
            Some(Directive::Run(i)) => {
                list.push(i);
                pool.complete(id);
            }
            Some(Directive::Exit) => exited += 1,
            None => panic!("worker {} found nothing after shutdown", id),
        }
    }
    assert_eq!(list.len(), 100);
    assert_eq!(list, (0..100).collect::<Vec<usize>>());
    assert_eq!(pool.queued(), 0);
    assert!((0..4).all(|id| status(&pool, id) == WorkerStatus::Exited));
}

#[test]
fn crashed_worker_leaves_one_worker_less() {
    // A job is `true` when it dies on the way, `false` when it adds to the
    // counter.
    let mut pool: ThreadPool<bool> = ThreadPool::new(1);
    let mut counter = 0;
    pool.execute(true);
    pool.execute(false);
    pool.shutdown();
    while pool.worker(0).unwrap().status == WorkerStatus::Waiting {
        match pool.receive(0) {
            Some(Directive::Run(true)) => pool.crash(0),
            Some(Directive::Run(false)) => {
                counter += 1;
                pool.complete(0);
            }
            Some(Directive::Exit) => {}
            None => panic!("the worker found nothing after shutdown"),
        }
    }
    assert_eq!(pool.join_next(), Some(0));
    assert_eq!(pool.join_next(), None);
    // The only worker died in the first job: no worker is left, the second
    // job never runs and stays queued before the order to stop.
    assert_eq!(pool.worker(0).unwrap().status, WorkerStatus::Crashed);
    assert_eq!(counter, 0);
    assert_eq!(pool.queued(), 2);
}

#[test]
fn crash_of_one_worker_does_not_stop_the_others() {
    let mut pool: ThreadPool<usize> = ThreadPool::new(2);
    let mut done = Vec::new();
    pool.execute(1);
    pool.execute(2);
    pool.execute(3);
    assert_eq!(pool.receive(0), Some(Directive::Run(1)));
    pool.crash(0);
    assert_eq!(pool.receive(1), Some(Directive::Run(2)));
    done.push(2);
    pool.complete(1);
    pool.shutdown();
    assert_eq!(pool.receive(1), Some(Directive::Run(3)));
    done.push(3);
    pool.complete(1);
    assert_eq!(pool.receive(1), Some(Directive::Exit));
    assert_eq!(done, vec![2, 3]);
    assert_eq!(status(&pool, 0), WorkerStatus::Crashed);
    assert_eq!(status(&pool, 1), WorkerStatus::Exited);
    // The order to stop meant for the crashed worker is never taken.
    assert_eq!(pool.queued(), 1);
}

#[test]
fn sixth_job_waits_for_a_free_worker() {
    let mut pool: ThreadPool<usize> = ThreadPool::new(5);
    for i in 0..10 {
        pool.execute(i);
    }
    for id in 0..5 {
        assert_eq!(pool.receive(id), Some(Directive::Run(id)));
    }
    // Every worker is busy: the sixth job is still queued.
    assert!((0..5).all(|id| status(&pool, id) == WorkerStatus::Running));
    assert_eq!(pool.queued(), 5);
    // It begins only once the first job has completed.
    pool.complete(0);
    assert_eq!(status(&pool, 0), WorkerStatus::Waiting);
    assert_eq!(pool.receive(0), Some(Directive::Run(5)));
    assert_eq!(pool.queued(), 4);
}

#[test]
fn shutdown_sends_one_order_to_stop_per_worker_behind_the_jobs() {
    let mut pool: ThreadPool<usize> = ThreadPool::new(3);
    pool.execute(11);
    pool.shutdown();
    assert_eq!(pool.queued(), 4);
    assert_eq!(pool.receive(0), Some(Directive::Run(11)));
    assert_eq!(pool.receive(1), Some(Directive::Exit));
    assert_eq!(pool.receive(2), Some(Directive::Exit));
    pool.complete(0);
    assert_eq!(pool.receive(0), Some(Directive::Exit));
    assert_eq!(pool.queued(), 0);
}

#[test]
fn handles_are_given_up_once_in_construction_order() {
    let mut pool: ThreadPool<usize> = ThreadPool::new(3);
    pool.shutdown();
    assert_eq!(pool.join_next(), Some(0));
    assert_eq!(pool.worker(0).unwrap().joinable, false);
    assert_eq!(pool.worker(1).unwrap().joinable, true);
    assert_eq!(pool.join_next(), Some(1));
    assert_eq!(pool.join_next(), Some(2));
    assert_eq!(pool.join_next(), None);
    assert_eq!(pool.join_next(), None);
    assert!((0..3).all(|id| !pool.worker(id).unwrap().joinable));
}
