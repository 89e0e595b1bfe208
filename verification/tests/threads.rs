use page_server::threads::{Dispatch, ThreadPool, ThreadPoolError, WorkerState};

fn pool(size: usize) -> ThreadPool<u32> {
    match ThreadPool::build(size) {
        Ok(pool) => pool,
        Err(error) => panic!("a pool of {size} workers was refused: {error:?}"),
    }
}

#[test]
fn a_pool_without_workers_is_refused() {
    assert!(matches!(ThreadPool::<u32>::build(0), Err(ThreadPoolError::InvalidSize)));
}

#[test]
fn every_positive_size_builds_a_pool() {
    for size in 1..=64usize {
        let built = pool(size);
        assert_eq!(built.size(), size);
        assert!(built.is_accepting());
        assert_eq!(built.queued(), 0);
        assert!(!built.is_terminated());
        for worker in 0..size {
            assert_eq!(built.worker_state(worker), Some(WorkerState::Idle));
        }
        assert_eq!(built.worker_state(size), None);
    }
}

#[test]
fn jobs_leave_in_the_order_in_which_they_came() {
    let mut jobs = pool(2);
    assert_eq!(jobs.execute(10), Ok(()));
    assert_eq!(jobs.execute(20), Ok(()));
    assert_eq!(jobs.execute(30), Ok(()));
    assert_eq!(jobs.queued(), 3);
    assert_eq!(jobs.next_job(1), Dispatch::Run(10));
    assert_eq!(jobs.worker_state(1), Some(WorkerState::Busy));
    assert_eq!(jobs.worker_state(0), Some(WorkerState::Idle));
    assert_eq!(jobs.next_job(0), Dispatch::Run(20));
    jobs.finish(1);
    assert_eq!(jobs.worker_state(1), Some(WorkerState::Idle));
    assert_eq!(jobs.next_job(1), Dispatch::Run(30));
    assert_eq!(jobs.queued(), 0);
    jobs.finish(0);
    assert_eq!(jobs.next_job(0), Dispatch::Wait);
    assert_eq!(jobs.worker_state(0), Some(WorkerState::Idle));
    assert_eq!(jobs.worker_state(1), Some(WorkerState::Busy));
}

#[test]
fn a_busy_worker_is_handed_no_second_job() {
    let mut jobs = pool(2);
    assert_eq!(jobs.execute(1), Ok(()));
    assert_eq!(jobs.execute(2), Ok(()));
    assert_eq!(jobs.next_job(0), Dispatch::Run(1));
    assert_eq!(jobs.next_job(0), Dispatch::Wait);
    assert_eq!(jobs.next_job(0), Dispatch::Wait);
    assert_eq!(jobs.worker_state(0), Some(WorkerState::Busy));
    assert_eq!(jobs.queued(), 1);
    jobs.shutdown();
    assert_eq!(jobs.next_job(0), Dispatch::Wait);
    assert_eq!(jobs.worker_state(0), Some(WorkerState::Busy));
    jobs.finish(0);
    assert_eq!(jobs.next_job(0), Dispatch::Run(2));
    jobs.finish(0);
    assert_eq!(jobs.next_job(0), Dispatch::Exit);
}

#[test]
fn finishing_without_a_job_changes_nothing() {
    let mut jobs = pool(2);
    jobs.finish(0);
    jobs.finish(7);
    assert_eq!(jobs.worker_state(0), Some(WorkerState::Idle));
    assert_eq!(jobs.worker_state(1), Some(WorkerState::Idle));
    jobs.shutdown();
    assert_eq!(jobs.next_job(1), Dispatch::Exit);
    jobs.finish(1);
    assert_eq!(jobs.worker_state(1), Some(WorkerState::Exited));
    assert_eq!(jobs.next_job(1), Dispatch::Exit);
}

#[test]
fn a_pool_of_one_runs_one_job_at_a_time() {
    let mut jobs = pool(1);
    for job in 0..10u32 {
        assert_eq!(jobs.execute(job), Ok(()));
    }
    for job in 0..10u32 {
        assert_eq!(jobs.next_job(0), Dispatch::Run(job));
        assert_eq!(jobs.next_job(0), Dispatch::Wait);
        assert_eq!(jobs.queued(), 9 - job as usize);
        jobs.finish(0);
    }
    assert_eq!(jobs.next_job(0), Dispatch::Wait);
}

#[test]
fn an_idle_pool_tells_its_workers_to_wait() {
    let mut jobs = pool(3);
    assert_eq!(jobs.next_job(0), Dispatch::Wait);
    assert_eq!(jobs.next_job(2), Dispatch::Wait);
    assert_eq!(jobs.execute(5), Ok(()));
    assert_eq!(jobs.next_job(2), Dispatch::Run(5));
    jobs.finish(2);
    assert_eq!(jobs.next_job(2), Dispatch::Wait);
}

#[test]
fn a_pool_that_shuts_down_takes_no_job() {
    let mut jobs = pool(1);
    jobs.shutdown();
    assert!(!jobs.is_accepting());
    assert_eq!(
        jobs.execute(1),
        Err(ThreadPoolError::ClosureExecError("Closure could not be send to a thread".to_string()))
    );
    assert_eq!(jobs.queued(), 0);
}

#[test]
fn shutdown_drains_the_intake_before_workers_leave() {
    let mut jobs = pool(2);
    assert_eq!(jobs.execute(1), Ok(()));
    assert_eq!(jobs.execute(2), Ok(()));
    jobs.shutdown();
    assert_eq!(jobs.queued(), 2);
    assert_eq!(jobs.next_job(0), Dispatch::Run(1));
    jobs.finish(0);
    assert_eq!(jobs.next_job(0), Dispatch::Run(2));
    assert!(!jobs.is_terminated());
    jobs.finish(0);
    assert_eq!(jobs.next_job(0), Dispatch::Exit);
    assert_eq!(jobs.worker_state(0), Some(WorkerState::Exited));
    assert!(!jobs.is_terminated());
    assert_eq!(jobs.next_job(1), Dispatch::Exit);
    assert!(jobs.is_terminated());
}

#[test]
fn a_worker_that_left_stays_out() {
    let mut jobs = pool(1);
    jobs.shutdown();
    assert_eq!(jobs.next_job(0), Dispatch::Exit);
    assert_eq!(jobs.next_job(0), Dispatch::Exit);
    assert_eq!(jobs.worker_state(0), Some(WorkerState::Exited));
    assert!(jobs.is_terminated());
}

#[test]
fn a_stranger_is_sent_away() {
    let mut jobs = pool(2);
    assert_eq!(jobs.execute(9), Ok(()));
    assert_eq!(jobs.next_job(2), Dispatch::Exit);
    assert_eq!(jobs.next_job(usize::MAX), Dispatch::Exit);
    assert_eq!(jobs.queued(), 1);
    assert_eq!(jobs.next_job(1), Dispatch::Run(9));
}

#[test]
fn every_job_runs_exactly_once_on_one_worker() {
    let workers = 4usize;
    let mut jobs = pool(workers);
    let mut runs: Vec<Vec<u32>> = vec![Vec::new(); workers];
    let mut submitted: u32 = 0;
    let mut turn: usize = 0;
    while submitted < 100 {
        assert_eq!(jobs.execute(submitted), Ok(()));
        submitted += 1;
        if submitted % 3 == 0 {
            for _ in 0..2 {
                if let Dispatch::Run(job) = jobs.next_job(turn % workers) {
                    runs[turn % workers].push(job);
                    jobs.finish(turn % workers);
                }
                turn += 1;
            }
        }
    }
    jobs.shutdown();
    let mut left = workers;
    while left > 0 {
        match jobs.next_job(turn % workers) {
            Dispatch::Run(job) => {
                runs[turn % workers].push(job);
                jobs.finish(turn % workers);
            }
            Dispatch::Exit => {
                if jobs.worker_state(turn % workers) == Some(WorkerState::Exited) {
                    left = (0..workers)
                        .filter(|worker| jobs.worker_state(*worker) != Some(WorkerState::Exited))
                        .count();
                }
            }
            Dispatch::Wait => panic!("a pool that shuts down lets nobody wait"),
        }
        turn += 1;
    }
    assert!(jobs.is_terminated());
    let mut seen = vec![0u32; 100];
    for worker_runs in &runs {
        for job in worker_runs {
            seen[*job as usize] += 1;
        }
        let mut sorted = worker_runs.clone();
        sorted.sort();
        assert_eq!(&sorted, worker_runs);
    }
    assert!(seen.iter().all(|count| *count == 1));
}
