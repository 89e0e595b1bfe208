//! The worker pool: a fixed number of workers that take jobs from one intake.
//!
//! The pool decides who gets which job and when a worker may leave; it starts
//! no thread and runs no job. Its caller keeps one thread per worker. Each
//! thread asks with [`ThreadPool::next_job`] what to do, runs the job that it
//! is handed, reports its end with [`ThreadPool::finish`], and asks again: a
//! worker is handed no job while it runs one. Jobs enter with
//! [`ThreadPool::execute`] and leave in the order in which they entered, each
//! to exactly one worker.
//! After [`ThreadPool::shutdown`] no job enters any more; the workers take
//! what is still waiting, and only then are told to leave.

use std::collections::VecDeque;
use vstd::prelude::*;
use vstd::string::*;

verus! {

/// Why the pool refused.
#[derive(Debug, PartialEq, Eq)]
pub enum ThreadPoolError {
    /// A pool needs at least one worker.
    InvalidSize,
    /// The job could not be taken in: the pool is shutting down.
    ClosureExecError(String),
}

/// What a worker is doing.
#[derive(Clone, Copy, Debug, PartialEq, Eq)]
pub enum WorkerState {
    /// It waits for a job.
    Idle,
    /// It runs the job that it was handed last.
    Busy,
    /// It has left, and takes no job any more.
    Exited,
}

/// What a worker is told when it asks for its next job.
#[derive(Debug, PartialEq, Eq)]
pub enum Dispatch<J> {
    /// Run this job, report its end, then ask again.
    Run(J),
    /// Nothing to run now: no job is waiting, or the worker still runs one.
    /// Ask again when a job has come in, the pool shuts down, or the job has
    /// ended.
    Wait,
    /// Leave: the pool is shutting down and nothing is waiting.
    Exit,
}

/// The model of a [`ThreadPool`].
pub struct PoolView<J> {
    /// Whether jobs are still taken in.
    pub accepting: bool,
    /// The jobs that wait for a worker, oldest first.
    pub pending: Seq<J>,
    /// The state of each worker.
    pub workers: Seq<WorkerState>,
}

impl<J> PoolView<J> {
    /// A pool of `size` idle workers with an empty, open intake.
    pub open spec fn started(size: nat) -> Self {
        PoolView {
            accepting: true,
            pending: Seq::empty(),
            workers: Seq::new(size, |i: int| WorkerState::Idle),
        }
    }

    /// The pool after `job` was submitted: it waits behind the others, or is
    /// dropped where the intake is closed.
    pub open spec fn submit(self, job: J) -> Self {
        if self.accepting {
            PoolView { pending: self.pending.push(job), ..self }
        } else {
            self
        }
    }

    /// The pool after its intake was closed.
    pub open spec fn close(self) -> Self {
        PoolView { accepting: false, ..self }
    }

    /// Whether `worker` is a worker of the pool that has not left.
    pub open spec fn serves(self, worker: int) -> bool {
        0 <= worker < self.workers.len() && self.workers[worker] != WorkerState::Exited
    }

    /// Whether `worker` is a worker of the pool that runs a job.
    pub open spec fn busy(self, worker: int) -> bool {
        0 <= worker < self.workers.len() && self.workers[worker] == WorkerState::Busy
    }

    /// What `worker` is told when it asks for its next job: the oldest job
    /// that waits; to wait, where none does and the intake is open; and to
    /// leave, where none does and the intake is closed. One that is no worker
    /// of the pool, or has left, is told to leave. One that still runs a job
    /// is handed no other: it is told to wait.
    pub open spec fn hand_out(self, worker: int) -> Dispatch<J> {
        if !self.serves(worker) {
            Dispatch::Exit
        } else if self.busy(worker) {
            Dispatch::Wait
        } else if self.pending.len() > 0 {
            Dispatch::Run(self.pending[0])
        } else if self.accepting {
            Dispatch::Wait
        } else {
            Dispatch::Exit
        }
    }

    /// The pool after `worker` asked for its next job.
    pub open spec fn after_hand_out(self, worker: int) -> Self {
        if !self.serves(worker) || self.busy(worker) {
            self
        } else if self.pending.len() > 0 {
            PoolView {
                pending: self.pending.drop_first(),
                workers: self.workers.update(worker, WorkerState::Busy),
                ..self
            }
        } else if self.accepting {
            PoolView { workers: self.workers.update(worker, WorkerState::Idle), ..self }
        } else {
            PoolView { workers: self.workers.update(worker, WorkerState::Exited), ..self }
        }
    }

    /// The pool after `worker` reported the end of its job: the worker is
    /// idle again. A report from one that runs no job changes nothing.
    pub open spec fn after_finish(self, worker: int) -> Self {
        if self.busy(worker) {
            PoolView { workers: self.workers.update(worker, WorkerState::Idle), ..self }
        } else {
            self
        }
    }

    /// Whether every worker has left.
    pub open spec fn terminated(self) -> bool {
        forall|i: int| 0 <= i < self.workers.len() ==> self.workers[i] == WorkerState::Exited
    }
}

/// The message of the error for a job that was not taken in.
pub open spec fn refused_message() -> Seq<char> {
    "Closure could not be send to a thread"@
}

/// A pool of workers and the jobs that wait for them. `J` is what the
/// caller's threads run: the pool only passes it on.
pub struct ThreadPool<J> {
    accepting: bool,
    queue: VecDeque<J>,
    workers: Vec<WorkerState>,
}

impl<J> View for ThreadPool<J> {
    type V = PoolView<J>;

    closed spec fn view(&self) -> PoolView<J> {
        PoolView { accepting: self.accepting, pending: self.queue@, workers: self.workers@ }
    }
}

impl<J> ThreadPool<J> {
    /// Builds a pool of `size` workers, all idle, that takes jobs in. Fails
    /// for a pool without workers, and for no other size.
    pub fn build(size: usize) -> (result: Result<ThreadPool<J>, ThreadPoolError>)
        ensures
            size < 1 ==> result matches Err(ThreadPoolError::InvalidSize),
            size >= 1 ==> (result matches Ok(pool) && pool@ == PoolView::<J>::started(size as nat)),
    {
        if size < 1 {
            return Err(ThreadPoolError::InvalidSize);
        }
        let mut workers: Vec<WorkerState> = Vec::new();
        let mut i: usize = 0;
        while i < size
            invariant
                i <= size,
                workers@ =~= Seq::new(i as nat, |k: int| WorkerState::Idle),
            decreases size - i,
        {
            workers.push(WorkerState::Idle);
            i += 1;
        }
        Ok(ThreadPool { accepting: true, queue: VecDeque::new(), workers })
    }

    /// The number of workers.
    pub fn size(&self) -> (size: usize)
        ensures
            size == self@.workers.len(),
    {
        self.workers.len()
    }

    /// Whether jobs are still taken in.
    pub fn is_accepting(&self) -> (accepting: bool)
        ensures
            accepting == self@.accepting,
    {
        self.accepting
    }

    /// The number of jobs that wait for a worker.
    pub fn queued(&self) -> (count: usize)
        ensures
            count == self@.pending.len(),
    {
        self.queue.len()
    }

    /// What `worker` is doing, if the pool has such a worker.
    pub fn worker_state(&self, worker: usize) -> (state: Option<WorkerState>)
        ensures
            state == if worker < self@.workers.len() {
                Some(self@.workers[worker as int])
            } else {
                None
            },
    {
        if worker < self.workers.len() {
            Some(self.workers[worker])
        } else {
            None
        }
    }

    /// Whether every worker has left: nothing runs any more, and nothing
    /// will.
    pub fn is_terminated(&self) -> (done: bool)
        ensures
            done == self@.terminated(),
    {
        let mut i: usize = 0;
        while i < self.workers.len()
            invariant
                i <= self.workers.len(),
                forall|k: int| 0 <= k < i ==> self.workers@[k] == WorkerState::Exited,
            decreases self.workers.len() - i,
        {
            match self.workers[i] {
                WorkerState::Exited => {},
                _ => {
                    return false;
                },
            }
            i += 1;
        }
        true
    }

    /// Submits `job`: it waits behind the jobs submitted before it, for the
    /// first worker that asks. Fails, and drops the job, only where the pool
    /// is shutting down.
    pub fn execute(&mut self, job: J) -> (result: Result<(), ThreadPoolError>)
        ensures
            final(self)@ == old(self)@.submit(job),
            old(self)@.accepting ==> result is Ok,
            !old(self)@.accepting ==> (result matches Err(
                ThreadPoolError::ClosureExecError(message),
            ) && message@ == refused_message()),
    {
        if !self.accepting {
            return Err(
                ThreadPoolError::ClosureExecError(
                    String::from_str("Closure could not be send to a thread"),
                ),
            );
        }
        self.queue.push_back(job);
        Ok(())
    }

    /// Begins the shutdown: no job is taken in from now on. The jobs that
    /// wait are still handed out, and no worker is told to leave before.
    pub fn shutdown(&mut self)
        ensures
            final(self)@ == old(self)@.close(),
    {
        self.accepting = false;
    }

    /// Takes note that `worker` has come to the end of the job that it was
    /// handed: from now on it can be handed the next.
    pub fn finish(&mut self, worker: usize)
        ensures
            final(self)@ == old(self)@.after_finish(worker as int),
    {
        if worker < self.workers.len() {
            match self.workers[worker] {
                WorkerState::Busy => {
                    self.workers.set(worker, WorkerState::Idle);
                },
                _ => {},
            }
        }
    }

    /// Tells `worker` what to do next. A job is handed only to a worker that
    /// runs none.
    pub fn next_job(&mut self, worker: usize) -> (dispatch: Dispatch<J>)
        ensures
            dispatch == old(self)@.hand_out(worker as int),
            final(self)@ == old(self)@.after_hand_out(worker as int),
    {
        if worker >= self.workers.len() {
            return Dispatch::Exit;
        }
        match self.workers[worker] {
            WorkerState::Exited => {
                return Dispatch::Exit;
            },
            WorkerState::Busy => {
                return Dispatch::Wait;
            },
            WorkerState::Idle => {},
        }
        match self.queue.pop_front() {
            Some(job) => {
                self.workers.set(worker, WorkerState::Busy);
                Dispatch::Run(job)
            },
            None => {
                if self.accepting {
                    self.workers.set(worker, WorkerState::Idle);
                    Dispatch::Wait
                } else {
                    self.workers.set(worker, WorkerState::Exited);
                    Dispatch::Exit
                }
            },
        }
    }
}

/// What happens to a pool.
pub enum PoolEvent<J> {
    /// A job is submitted.
    Submit(J),
    /// A worker asks for its next job.
    Ready(int),
    /// A worker reports the end of its job.
    Finished(int),
    /// The shutdown begins.
    Shutdown,
}

/// The pool after an event.
pub open spec fn apply<J>(pool: PoolView<J>, event: PoolEvent<J>) -> PoolView<J> {
    match event {
        PoolEvent::Submit(job) => pool.submit(job),
        PoolEvent::Ready(worker) => pool.after_hand_out(worker),
        PoolEvent::Finished(worker) => pool.after_finish(worker),
        PoolEvent::Shutdown => pool.close(),
    }
}

/// The pool after a run of events.
pub open spec fn run<J>(pool: PoolView<J>, events: Seq<PoolEvent<J>>) -> PoolView<J>
    decreases events.len(),
{
    if events.len() == 0 {
        pool
    } else {
        apply(run(pool, events.drop_last()), events.last())
    }
}

/// The jobs that the pool took in during a run of events, in their order.
pub open spec fn accepted<J>(pool: PoolView<J>, events: Seq<PoolEvent<J>>) -> Seq<J>
    decreases events.len(),
{
    if events.len() == 0 {
        Seq::empty()
    } else {
        let earlier = accepted(pool, events.drop_last());
        match events.last() {
            PoolEvent::Submit(job) => if run(pool, events.drop_last()).accepting {
                earlier.push(job)
            } else {
                earlier
            },
            _ => earlier,
        }
    }
}

/// The jobs that the pool handed to workers during a run of events, each with
/// the worker that got it, in their order.
pub open spec fn delivered<J>(pool: PoolView<J>, events: Seq<PoolEvent<J>>) -> Seq<(int, J)>
    decreases events.len(),
{
    if events.len() == 0 {
        Seq::empty()
    } else {
        let earlier = delivered(pool, events.drop_last());
        match events.last() {
            PoolEvent::Ready(worker) => match run(pool, events.drop_last()).hand_out(worker) {
                Dispatch::Run(job) => earlier.push((worker, job)),
                _ => earlier,
            },
            _ => earlier,
        }
    }
}

/// The jobs of a sequence of deliveries.
pub open spec fn jobs_of<J>(deliveries: Seq<(int, J)>) -> Seq<J> {
    deliveries.map_values(|delivery: (int, J)| delivery.1)
}

/// Whatever happens to a pool, the jobs that it handed out, followed by the
/// jobs that still wait, are the jobs that it took in, in the order in which
/// they came: every job that was taken in is handed out at most once, to one
/// worker, and none is lost or made up. Each job went to a worker of the pool
/// that had not left.
pub proof fn lemma_jobs_conserved<J>(size: nat, events: Seq<PoolEvent<J>>)
    ensures
        jobs_of(delivered(PoolView::<J>::started(size), events)) + run(
            PoolView::<J>::started(size),
            events,
        ).pending == accepted(PoolView::<J>::started(size), events),
        forall|k: int|
            0 <= k < delivered(PoolView::<J>::started(size), events).len() ==> 0 <= (
            #[trigger] delivered(PoolView::<J>::started(size), events)[k]).0 < size,
        run(PoolView::<J>::started(size), events).workers.len() == size,
    decreases events.len(),
{
    let start = PoolView::<J>::started(size);
    if events.len() > 0 {
        let before = events.drop_last();
        lemma_jobs_conserved::<J>(size, before);
        let pool = run(start, before);
        let handed = jobs_of(delivered(start, before));
        match events.last() {
            PoolEvent::Submit(job) => {
                assert(handed + pool.pending.push(job) =~= (handed + pool.pending).push(job));
            },
            PoolEvent::Ready(worker) => {
                match pool.hand_out(worker) {
                    Dispatch::Run(job) => {
                        assert(jobs_of(delivered(start, before).push((worker, job)))
                            =~= handed.push(job));
                        assert(handed.push(job) + pool.pending.drop_first() =~= handed
                            + pool.pending);
                    },
                    _ => {},
                }
            },
            PoolEvent::Finished(_) => {},
            PoolEvent::Shutdown => {},
        }
    }
}

/// Whatever happens to a pool, a worker leaves only after the shutdown began
/// and the last waiting job was handed out, and from then on the pool takes
/// in nothing. So once every worker has left, every job that the pool ever
/// took in has been handed to a worker.
pub proof fn lemma_workers_leave_when_drained<J>(size: nat, events: Seq<PoolEvent<J>>)
    ensures
        ({
            let pool = run(PoolView::<J>::started(size), events);
            (exists|i: int| 0 <= i < pool.workers.len() && pool.workers[i] == WorkerState::Exited)
                ==> !pool.accepting && pool.pending.len() == 0
        }),
        size >= 1 && run(PoolView::<J>::started(size), events).terminated() ==> jobs_of(
            delivered(PoolView::<J>::started(size), events),
        ) == accepted(PoolView::<J>::started(size), events),
    decreases events.len(),
{
    let start = PoolView::<J>::started(size);
    lemma_jobs_conserved::<J>(size, events);
    if events.len() > 0 {
        lemma_workers_leave_when_drained::<J>(size, events.drop_last());
    }
    let reached = run(start, events);
    if size >= 1 && reached.terminated() {
        assert(reached.workers[0] == WorkerState::Exited);
        assert(jobs_of(delivered(start, events)) + reached.pending =~= jobs_of(
            delivered(start, events),
        ));
    }
}

/// Whatever happens to a pool, a job that waits is handed to the next worker
/// that asks and runs no job: while a job waits no worker has left, and
/// whichever worker asks, unless it still runs a job, is handed the oldest of
/// the waiting jobs.
pub proof fn lemma_waiting_job_goes_to_next_worker<J>(
    size: nat,
    events: Seq<PoolEvent<J>>,
    worker: int,
)
    requires
        0 <= worker < size,
        run(PoolView::<J>::started(size), events).pending.len() > 0,
        !run(PoolView::<J>::started(size), events).busy(worker),
    ensures
        run(PoolView::<J>::started(size), events).hand_out(worker) == Dispatch::Run(
            run(PoolView::<J>::started(size), events).pending[0],
        ),
{
    lemma_jobs_conserved::<J>(size, events);
    lemma_workers_leave_when_drained::<J>(size, events);
}

/// The job that `worker` runs after a run of events, if it runs one: the job
/// that it was handed last, until it reports the end of it.
pub open spec fn running<J>(pool: PoolView<J>, events: Seq<PoolEvent<J>>, worker: int) -> Option<J>
    decreases events.len(),
{
    if events.len() == 0 {
        None
    } else {
        let earlier = running(pool, events.drop_last(), worker);
        match events.last() {
            PoolEvent::Ready(asking) => if asking == worker {
                match run(pool, events.drop_last()).hand_out(worker) {
                    Dispatch::Run(job) => Some(job),
                    _ => earlier,
                }
            } else {
                earlier
            },
            PoolEvent::Finished(done) => if done == worker {
                None
            } else {
                earlier
            },
            _ => earlier,
        }
    }
}

/// Whatever happens to a pool, a worker runs one job at a time: it is busy
/// exactly while it runs the job that it was handed last, and it is handed a
/// job only when it runs none, so that no job begins on a worker before the
/// job before it has ended there. Once every worker has left, no job runs.
pub proof fn lemma_one_job_at_a_time<J>(size: nat, events: Seq<PoolEvent<J>>, worker: int)
    requires
        0 <= worker < size,
    ensures
        running(PoolView::<J>::started(size), events, worker) is Some <==> run(
            PoolView::<J>::started(size),
            events,
        ).busy(worker),
        run(PoolView::<J>::started(size), events).hand_out(worker) is Run ==> running(
            PoolView::<J>::started(size),
            events,
            worker,
        ) is None,
        run(PoolView::<J>::started(size), events).terminated() ==> running(
            PoolView::<J>::started(size),
            events,
            worker,
        ) is None,
    decreases events.len(),
{
    lemma_jobs_conserved::<J>(size, events);
    if events.len() > 0 {
        lemma_jobs_conserved::<J>(size, events.drop_last());
        lemma_one_job_at_a_time::<J>(size, events.drop_last(), worker);
    }
}

/// A worker that has left is handed no job and stays away.
pub proof fn lemma_exited_worker_stays_out<J>(pool: PoolView<J>, worker: int)
    requires
        0 <= worker < pool.workers.len(),
        pool.workers[worker] == WorkerState::Exited,
    ensures
        pool.hand_out(worker) == Dispatch::<J>::Exit,
        pool.after_hand_out(worker) == pool,
{
}

} // verus!
