//! The bounded worker pool: a fixed set of workers fed from one queue, and
//! the shutdown that drains it.
//!
//! The pool decides; whoever runs the threads carries the decisions out. A
//! submitter calls `execute`. Each worker thread calls `receive` with its
//! identity while it holds the lock on the pool, waits when it gets nothing,
//! runs the job it was given with the lock released, and reports back with
//! `complete`. Dropping the pool is `shutdown`, followed by `join_next` until
//! no handle is left, joining each thread as its handle is given up.

use std::collections::VecDeque;
use vstd::prelude::*;

use crate::message::{directive, terminates, Directive, Message};
use crate::pool_state::{
    lemma_complete_inv, lemma_crash_inv, lemma_hand_over_inv, lemma_initial_inv,
    lemma_receive_inv, lemma_shutdown_inv, lemma_submit_inv, PoolState,
};
use crate::worker::{Worker, WorkerStatus};

verus! {

/// A pool of workers and the queue that feeds them.
pub struct ThreadPool<J> {
    workers: Vec<Worker>,
    queue: VecDeque<Message<J>>,
    terminating: bool,
    submitted: Ghost<Seq<J>>,
    started: Ghost<nat>,
    finished: Ghost<nat>,
}

impl<J> View for ThreadPool<J> {
    type V = PoolState<J>;

    closed spec fn view(&self) -> PoolState<J> {
        PoolState {
            workers: self.workers@,
            queue: self.queue@,
            terminating: self.terminating,
            submitted: self.submitted@,
            started: self.started@,
            finished: self.finished@,
        }
    }
}

impl<J> ThreadPool<J> {
    /// Creates a pool of `size` workers, with identities `0..size`, all
    /// waiting on an empty queue.
    ///
    /// A pool without workers is refused: `size` must be positive.
    pub fn new(size: usize) -> (pool: ThreadPool<J>)
        requires
            size > 0,
        ensures
            pool@ == PoolState::<J>::initial(size as nat),
            pool@.inv(),
    {
        let mut workers: Vec<Worker> = Vec::with_capacity(size);
        let mut id: usize = 0;
        while id < size
            invariant
                id <= size,
                workers@.len() == id,
                forall|i: int|
                    0 <= i < id ==> workers@[i] == (Worker {
                        id: i as usize,
                        status: WorkerStatus::Waiting,
                        joinable: true,
                    }),
            decreases size - id,
        {
            workers.push(Worker::new(id));
            id += 1;
        }
        let pool = ThreadPool {
            workers,
            queue: VecDeque::new(),
            terminating: false,
            submitted: Ghost(Seq::empty()),
            started: Ghost(0),
            finished: Ghost(0),
        };
        proof {
            let fresh = PoolState::<J>::initial(size as nat);
            assert(pool@.workers =~= fresh.workers);
            assert(pool@.queue =~= fresh.queue);
            lemma_initial_inv::<J>(size as nat);
        }
        pool
    }

    /// Submits a job: it goes to the back of the queue and the call returns
    /// at once, whatever the workers are doing.
    pub fn execute(&mut self, job: J)
        requires
            old(self)@.inv(),
            old(self)@.can_submit(),
        ensures
            final(self)@ == old(self)@.submit(job),
            final(self)@.inv(),
    {
        self.queue.push_back(Message::NewJob(job));
        self.submitted = Ghost(self.submitted@.push(job));
        proof {
            lemma_submit_inv(old(self)@, job);
        }
    }

    /// Worker `id` takes the oldest message from the queue.
    ///
    /// With an empty queue nothing changes and the worker gets nothing: it
    /// keeps waiting. Otherwise it is told to run the job it received, or to
    /// exit on the order to stop.
    pub fn receive(&mut self, id: usize) -> (step: Option<Directive<J>>)
        requires
            old(self)@.inv(),
            old(self)@.is_waiting(id as int),
        ensures
            step == old(self)@.next_directive(),
            final(self)@ == old(self)@.receive(id as int),
            final(self)@.inv(),
    {
        if self.queue.len() == 0 {
            return None;
        }
        let received = self.queue.pop_front();
        let step = directive(received);
        let worker = self.workers[id];
        match &step {
            Directive::Run(_) => {
                self.workers.set(id, Worker { status: WorkerStatus::Running, ..worker });
                self.started = Ghost(self.started@ + 1);
            },
            Directive::Exit => {
                self.workers.set(id, Worker { status: WorkerStatus::Exited, ..worker });
            },
        }
        proof {
            lemma_receive_inv(old(self)@, id as int);
            assert(self@.queue =~= old(self)@.receive(id as int).queue);
            assert(self@.workers =~= old(self)@.receive(id as int).workers);
        }
        Some(step)
    }

    /// Worker `id` has run its job to completion and waits again.
    pub fn complete(&mut self, id: usize)
        requires
            old(self)@.inv(),
            old(self)@.is_running(id as int),
        ensures
            final(self)@ == old(self)@.complete(id as int),
            final(self)@.inv(),
    {
        let worker = self.workers[id];
        self.workers.set(id, Worker { status: WorkerStatus::Waiting, ..worker });
        self.finished = Ghost(self.finished@ + 1);
        proof {
            lemma_complete_inv(old(self)@, id as int);
            assert(self@.workers =~= old(self)@.complete(id as int).workers);
        }
    }

    /// Worker `id` died inside its job. The job is lost and the worker takes
    /// no further message; the rest of the pool goes on.
    pub fn crash(&mut self, id: usize)
        requires
            old(self)@.inv(),
            old(self)@.is_running(id as int),
        ensures
            final(self)@ == old(self)@.crash(id as int),
            final(self)@.inv(),
    {
        let worker = self.workers[id];
        self.workers.set(id, Worker { status: WorkerStatus::Crashed, ..worker });
        proof {
            lemma_crash_inv(old(self)@, id as int);
            assert(self@.workers =~= old(self)@.crash(id as int).workers);
        }
    }

    /// Begins shutdown: sends one order to stop for each worker, behind
    /// everything that was submitted before.
    pub fn shutdown(&mut self)
        requires
            old(self)@.inv(),
            !old(self)@.terminating,
        ensures
            final(self)@ == old(self)@.shutdown(),
            final(self)@.inv(),
    {
        let size = self.workers.len();
        let mut sent: usize = 0;
        while sent < size
            invariant
                sent <= size,
                size == self.workers@.len(),
                self.workers@ == old(self).workers@,
                self.terminating == old(self).terminating,
                self.submitted@ == old(self).submitted@,
                self.started@ == old(self).started@,
                self.finished@ == old(self).finished@,
                self.queue@ =~= old(self).queue@ + terminates::<J>(sent as nat),
            decreases size - sent,
        {
            self.queue.push_back(Message::Terminate);
            sent += 1;
        }
        self.terminating = true;
        proof {
            lemma_shutdown_inv(old(self)@);
            assert(self@.queue =~= old(self)@.shutdown().queue);
        }
    }

    /// Gives up the next handle to join: that of the first worker, in
    /// construction order, whose handle the pool still holds. A handle is
    /// given up once; when none is left the answer is `None`.
    pub fn join_next(&mut self) -> (next: Option<usize>)
        requires
            old(self)@.inv(),
            old(self)@.terminating,
        ensures
            match next {
                Some(id) => old(self)@.is_next_joinable(id as int) && final(self)@ == old(
                    self,
                )@.hand_over(id as int),
                None => old(self)@.all_joined() && final(self)@ == old(self)@,
            },
            final(self)@.inv(),
    {
        let size = self.workers.len();
        let mut id: usize = 0;
        while id < size
            invariant
                id <= size,
                size == self.workers@.len(),
                *self == *old(self),
                old(self)@.inv(),
                old(self)@.terminating,
                forall|k: int| 0 <= k < id ==> !(#[trigger] self.workers@[k]).joinable,
            decreases size - id,
        {
            let worker = self.workers[id];
            if worker.joinable {
                self.workers.set(id, Worker { joinable: false, ..worker });
                proof {
                    lemma_hand_over_inv(old(self)@, id as int);
                    assert(self@.workers =~= old(self)@.hand_over(id as int).workers);
                }
                return Some(id);
            }
            id += 1;
        }
        None
    }

    /// The number of workers.
    pub fn size(&self) -> (size: usize)
        ensures
            size == self@.size(),
    {
        self.workers.len()
    }

    /// The number of messages in the queue.
    pub fn queued(&self) -> (queued: usize)
        ensures
            queued == self@.queue.len(),
    {
        self.queue.len()
    }

    /// Whether shutdown has begun.
    pub fn is_terminating(&self) -> (terminating: bool)
        ensures
            terminating == self@.terminating,
    {
        self.terminating
    }

    /// The record of worker `id`, if there is such a worker.
    pub fn worker(&self, id: usize) -> (worker: Option<Worker>)
        ensures
            worker == if id < self@.size() {
                Some(self@.workers[id as int])
            } else {
                None
            },
    {
        if id < self.workers.len() {
            Some(self.workers[id])
        } else {
            None
        }
    }
}

} // verus!
