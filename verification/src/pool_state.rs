//! The pool as a state machine: what the pool, its queue and its workers hold
//! at any moment, the steps that change it, and what holds in every state
//! that the steps can reach.

use vstd::prelude::*;

use crate::message::{directive_of, jobs_as_messages, terminates, Directive, Message};
use crate::worker::{
    count_status, lemma_count_all, lemma_count_bound, lemma_count_none, lemma_count_replace,
    Worker, WorkerStatus,
};

verus! {

/// The state of a pool.
///
/// Besides what the pool holds (the workers and the queue), the state keeps
/// the history that the guarantees speak of: every job that was ever
/// submitted, in submission order, how many of them a worker has begun, and
/// how many have run to completion.
pub struct PoolState<J> {
    /// The workers, in construction order.
    pub workers: Seq<Worker>,
    /// The queue, oldest entry first.
    pub queue: Seq<Message<J>>,
    /// Whether shutdown has begun.
    pub terminating: bool,
    /// Every job submitted so far, in submission order.
    pub submitted: Seq<J>,
    /// How many jobs have been handed to a worker.
    pub started: nat,
    /// How many jobs have run to completion.
    pub finished: nat,
}

/// One step of the pool: what a submitter, a worker or the owner of the pool
/// does to it.
pub enum Step<J> {
    /// A job is submitted.
    Submit(J),
    /// The worker receives.
    Receive(int),
    /// The worker has run its job to completion.
    Complete(int),
    /// The worker died inside its job.
    Crash(int),
    /// The owner begins shutdown.
    Shutdown,
    /// The owner takes the handle of the worker, to join it.
    HandOver(int),
}

impl<J> PoolState<J> {
    /// The number of workers the pool was built with.
    pub open spec fn size(self) -> nat {
        self.workers.len()
    }

    /// How many workers stand at `status`.
    pub open spec fn count(self, status: WorkerStatus) -> nat {
        count_status(self.workers, status)
    }

    /// The jobs that were submitted and not yet begun, oldest first.
    pub open spec fn pending(self) -> Seq<J> {
        self.submitted.skip(self.started as int)
    }

    /// The orders to stop that are still in the queue: none before shutdown,
    /// afterwards one for each worker that has not obeyed one yet.
    pub open spec fn owed_terminates(self) -> nat {
        if self.terminating {
            (self.size() - self.count(WorkerStatus::Exited)) as nat
        } else {
            0
        }
    }

    /// The workers with the record of worker `id` set to `status`.
    pub open spec fn with_status(self, id: int, status: WorkerStatus) -> Seq<Worker> {
        self.workers.update(id, Worker { status, ..self.workers[id] })
    }

    /// What holds of every state the pool can reach.
    ///
    /// - There is at least one worker, and worker `i` has identity `i`.
    /// - The queue is first-in first-out and loses nothing: it holds exactly
    ///   the jobs not yet begun, in submission order, followed by the orders
    ///   to stop that are still owed.
    /// - Every job that was begun has finished, is running on a worker, or
    ///   was lost with a worker that crashed.
    /// - Before shutdown no worker has exited and every handle is held.
    /// - Once a worker has exited, no job is left to begin.
    pub open spec fn inv(self) -> bool {
        &&& self.size() > 0
        &&& forall|i: int| 0 <= i < self.size() ==> (#[trigger] self.workers[i]).id == i
        &&& self.started <= self.submitted.len()
        &&& self.queue =~= jobs_as_messages(self.pending()) + terminates(self.owed_terminates())
        &&& self.started == self.finished + self.count(WorkerStatus::Running) + self.count(
            WorkerStatus::Crashed,
        )
        &&& !self.terminating ==> {
            &&& self.count(WorkerStatus::Exited) == 0
            &&& forall|i: int| 0 <= i < self.size() ==> (#[trigger] self.workers[i]).joinable
        }
        &&& self.count(WorkerStatus::Exited) > 0 ==> self.started == self.submitted.len()
    }

    /// A fresh pool of `size` workers: all waiting, all handles held, nothing
    /// queued, no history.
    pub open spec fn initial(size: nat) -> PoolState<J> {
        PoolState {
            workers: Seq::new(
                size,
                |i: int| Worker { id: i as usize, status: WorkerStatus::Waiting, joinable: true },
            ),
            queue: Seq::empty(),
            terminating: false,
            submitted: Seq::empty(),
            started: 0,
            finished: 0,
        }
    }

    /// Jobs are accepted until shutdown begins.
    pub open spec fn can_submit(self) -> bool {
        !self.terminating
    }

    /// Submitting `job` puts it at the back of the queue.
    pub open spec fn submit(self, job: J) -> PoolState<J> {
        PoolState {
            queue: self.queue.push(Message::NewJob(job)),
            submitted: self.submitted.push(job),
            ..self
        }
    }

    /// Submitting `jobs` one after the other.
    pub open spec fn submit_all(self, jobs: Seq<J>) -> PoolState<J>
        decreases jobs.len(),
    {
        if jobs.len() == 0 {
            self
        } else {
            self.submit_all(jobs.drop_last()).submit(jobs.last())
        }
    }

    /// Worker `id` exists and is waiting for a message.
    pub open spec fn is_waiting(self, id: int) -> bool {
        0 <= id < self.size() && self.workers[id].status == WorkerStatus::Waiting
    }

    /// Worker `id` exists and is running a job.
    pub open spec fn is_running(self, id: int) -> bool {
        0 <= id < self.size() && self.workers[id].status == WorkerStatus::Running
    }

    /// What the next receive tells its worker: nothing while the queue is
    /// empty (the worker keeps waiting), else what the worker's rule makes
    /// of the oldest entry.
    pub open spec fn next_directive(self) -> Option<Directive<J>> {
        if self.queue.len() == 0 {
            None
        } else {
            Some(directive_of(Some(self.queue[0])))
        }
    }

    /// Worker `id` receives. An empty queue changes nothing. Otherwise the
    /// oldest entry leaves the queue: a job is begun and the worker runs it,
    /// an order to stop makes the worker exit.
    pub open spec fn receive(self, id: int) -> PoolState<J> {
        if self.queue.len() == 0 {
            self
        } else {
            match self.queue[0] {
                Message::NewJob(_) => PoolState {
                    workers: self.with_status(id, WorkerStatus::Running),
                    queue: self.queue.skip(1),
                    started: self.started + 1,
                    ..self
                },
                Message::Terminate => PoolState {
                    workers: self.with_status(id, WorkerStatus::Exited),
                    queue: self.queue.skip(1),
                    ..self
                },
            }
        }
    }

    /// Worker `id` has run its job to completion and waits again.
    pub open spec fn complete(self, id: int) -> PoolState<J> {
        PoolState {
            workers: self.with_status(id, WorkerStatus::Waiting),
            finished: self.finished + 1,
            ..self
        }
    }

    /// Worker `id` died inside its job.
    pub open spec fn crash(self, id: int) -> PoolState<J> {
        PoolState { workers: self.with_status(id, WorkerStatus::Crashed), ..self }
    }

    /// Shutdown begins: one order to stop for each worker goes to the back
    /// of the queue, behind every job submitted before.
    pub open spec fn shutdown(self) -> PoolState<J> {
        PoolState { queue: self.queue + terminates(self.size()), terminating: true, ..self }
    }

    /// Worker `i` is the first, in construction order, whose handle the pool
    /// still holds.
    pub open spec fn is_next_joinable(self, i: int) -> bool {
        &&& 0 <= i < self.size()
        &&& self.workers[i].joinable
        &&& forall|k: int| 0 <= k < i ==> !(#[trigger] self.workers[k]).joinable
    }

    /// No handle is held any more.
    pub open spec fn all_joined(self) -> bool {
        forall|k: int| 0 <= k < self.size() ==> !(#[trigger] self.workers[k]).joinable
    }

    /// The pool gives up the handle of worker `i`, to be joined.
    pub open spec fn hand_over(self, i: int) -> PoolState<J> {
        PoolState { workers: self.workers.update(i, Worker { joinable: false, ..self.workers[i] }), ..self }
    }

    /// Every worker has returned from its loop after an order to stop.
    pub open spec fn all_exited(self) -> bool {
        forall|i: int|
            0 <= i < self.size() ==> (#[trigger] self.workers[i]).status == WorkerStatus::Exited
    }

    /// The thread of every worker has ended, by an order to stop or by a
    /// crash: every join returns.
    pub open spec fn all_ended(self) -> bool {
        forall|i: int|
            0 <= i < self.size() ==> {
                ||| (#[trigger] self.workers[i]).status == WorkerStatus::Exited
                ||| self.workers[i].status == WorkerStatus::Crashed
            }
    }

    /// Whether `step` can be taken in this state.
    pub open spec fn enabled(self, step: Step<J>) -> bool {
        match step {
            Step::Submit(_) => self.can_submit(),
            Step::Receive(id) => self.is_waiting(id),
            Step::Complete(id) => self.is_running(id),
            Step::Crash(id) => self.is_running(id),
            Step::Shutdown => !self.terminating,
            Step::HandOver(id) => self.terminating && self.is_next_joinable(id),
        }
    }

    /// The state after `step`.
    pub open spec fn step(self, step: Step<J>) -> PoolState<J> {
        match step {
            Step::Submit(job) => self.submit(job),
            Step::Receive(id) => self.receive(id),
            Step::Complete(id) => self.complete(id),
            Step::Crash(id) => self.crash(id),
            Step::Shutdown => self.shutdown(),
            Step::HandOver(id) => self.hand_over(id),
        }
    }

    /// Worker `id` exists and its thread has ended.
    pub open spec fn has_ended(self, id: int) -> bool {
        &&& 0 <= id < self.size()
        &&& (self.workers[id].status == WorkerStatus::Exited || self.workers[id].status
            == WorkerStatus::Crashed)
    }

    /// The state after the workers `0..k` have each received once, in that
    /// order.
    pub open spec fn receive_each(self, k: nat) -> PoolState<J>
        decreases k,
    {
        if k == 0 {
            self
        } else {
            self.receive_each((k - 1) as nat).receive(k - 1)
        }
    }
}

/// A fresh pool satisfies the invariant.
pub proof fn lemma_initial_inv<J>(size: nat)
    requires
        0 < size <= usize::MAX,
    ensures
        PoolState::<J>::initial(size).inv(),
{
    let s = PoolState::<J>::initial(size);
    lemma_count_none(s.workers, WorkerStatus::Exited);
    lemma_count_none(s.workers, WorkerStatus::Running);
    lemma_count_none(s.workers, WorkerStatus::Crashed);
}

/// Submitting keeps the invariant.
pub proof fn lemma_submit_inv<J>(s: PoolState<J>, job: J)
    requires
        s.inv(),
        s.can_submit(),
    ensures
        s.submit(job).inv(),
{
    let t = s.submit(job);
    lemma_count_none(s.workers, WorkerStatus::Exited);
    assert(t.pending() =~= s.pending().push(job));
    assert(t.queue =~= jobs_as_messages(t.pending()) + terminates(t.owed_terminates()));
}

/// Receiving keeps the invariant.
pub proof fn lemma_receive_inv<J>(s: PoolState<J>, id: int)
    requires
        s.inv(),
        s.is_waiting(id),
    ensures
        s.receive(id).inv(),
{
    let t = s.receive(id);
    if s.queue.len() > 0 {
        lemma_count_bound(s.workers, WorkerStatus::Exited);
        match s.queue[0] {
            Message::NewJob(_) => {
                let w = Worker { status: WorkerStatus::Running, ..s.workers[id] };
                lemma_count_replace(s.workers, id, w);
                assert(s.pending().len() > 0) by {
                    if s.pending().len() == 0 {
                        assert(s.queue[0] == terminates::<J>(s.owed_terminates())[0]);
                    }
                }
                assert(t.pending() =~= s.pending().skip(1));
                assert(t.queue =~= jobs_as_messages(t.pending()) + terminates(
                    t.owed_terminates(),
                ));
            },
            Message::Terminate => {
                let w = Worker { status: WorkerStatus::Exited, ..s.workers[id] };
                lemma_count_replace(s.workers, id, w);
                lemma_count_bound(t.workers, WorkerStatus::Exited);
                assert(s.pending().len() == 0) by {
                    if s.pending().len() > 0 {
                        assert(s.queue[0] == jobs_as_messages(s.pending())[0]);
                    }
                }
                assert(t.queue =~= jobs_as_messages(t.pending()) + terminates(
                    t.owed_terminates(),
                ));
            },
        }
    }
}

/// Completing a job keeps the invariant.
pub proof fn lemma_complete_inv<J>(s: PoolState<J>, id: int)
    requires
        s.inv(),
        s.is_running(id),
    ensures
        s.complete(id).inv(),
{
    let w = Worker { status: WorkerStatus::Waiting, ..s.workers[id] };
    lemma_count_replace(s.workers, id, w);
}

/// A crash keeps the invariant.
pub proof fn lemma_crash_inv<J>(s: PoolState<J>, id: int)
    requires
        s.inv(),
        s.is_running(id),
    ensures
        s.crash(id).inv(),
{
    let w = Worker { status: WorkerStatus::Crashed, ..s.workers[id] };
    lemma_count_replace(s.workers, id, w);
}

/// Beginning shutdown keeps the invariant.
pub proof fn lemma_shutdown_inv<J>(s: PoolState<J>)
    requires
        s.inv(),
        !s.terminating,
    ensures
        s.shutdown().inv(),
{
    let t = s.shutdown();
    assert(t.queue =~= jobs_as_messages(t.pending()) + terminates(t.owed_terminates()));
}

/// Handing over a handle keeps the invariant.
pub proof fn lemma_hand_over_inv<J>(s: PoolState<J>, i: int)
    requires
        s.inv(),
        s.terminating,
        0 <= i < s.size(),
    ensures
        s.hand_over(i).inv(),
{
    let w = Worker { joinable: false, ..s.workers[i] };
    lemma_count_replace(s.workers, i, w);
}

/// Every step keeps the invariant: it holds in every state that a fresh pool
/// can reach.
pub proof fn lemma_step_keeps_invariant<J>(s: PoolState<J>, step: Step<J>)
    requires
        s.inv(),
        s.enabled(step),
    ensures
        s.step(step).inv(),
{
    match step {
        Step::Submit(job) => lemma_submit_inv(s, job),
        Step::Receive(id) => lemma_receive_inv(s, id),
        Step::Complete(id) => lemma_complete_inv(s, id),
        Step::Crash(id) => lemma_crash_inv(s, id),
        Step::Shutdown => lemma_shutdown_inv(s),
        Step::HandOver(id) => lemma_hand_over_inv(s, id),
    }
}

/// No step undoes what has happened. The pool keeps its size and every
/// worker its identity. A worker whose thread has ended stays as it ended:
/// it obeys one order to stop in its lifetime and takes no message after. A
/// handle that was given up is never held again, so no thread is joined
/// twice. Shutdown, once begun, stays begun. And the history only grows:
/// jobs are added behind those submitted before, and the numbers of jobs
/// begun and finished never fall.
pub proof fn lemma_step_never_undoes<J>(s: PoolState<J>, step: Step<J>, id: int)
    requires
        s.inv(),
        s.enabled(step),
        0 <= id < s.size(),
    ensures
        s.step(step).size() == s.size(),
        s.step(step).workers[id].id == s.workers[id].id,
        s.has_ended(id) ==> s.step(step).workers[id].status == s.workers[id].status,
        !s.workers[id].joinable ==> !s.step(step).workers[id].joinable,
        s.terminating ==> s.step(step).terminating,
        s.submitted.is_prefix_of(s.step(step).submitted),
        s.started <= s.step(step).started,
        s.finished <= s.step(step).finished,
{
    let t = s.step(step);
    assert(s.submitted =~= t.submitted.subrange(0, s.submitted.len() as int));
}

/// The queue has no bound: before shutdown a pool accepts any number of jobs,
/// one after the other, whatever its workers are doing. Each lands behind
/// what was queued before, nothing else changes, and the pool stays ready
/// for more.
pub proof fn lemma_accepts_any_number_of_jobs<J>(s: PoolState<J>, jobs: Seq<J>)
    requires
        s.inv(),
        s.can_submit(),
    ensures
        s.submit_all(jobs).inv(),
        s.submit_all(jobs).can_submit(),
        s.submit_all(jobs).queue == s.queue + jobs_as_messages(jobs),
        s.submit_all(jobs).submitted == s.submitted + jobs,
        s.submit_all(jobs).workers == s.workers,
        s.submit_all(jobs).started == s.started,
        s.submit_all(jobs).finished == s.finished,
    decreases jobs.len(),
{
    if jobs.len() > 0 {
        let before = s.submit_all(jobs.drop_last());
        lemma_accepts_any_number_of_jobs(s, jobs.drop_last());
        lemma_submit_inv(before, jobs.last());
        let after = s.submit_all(jobs);
        assert(after.queue =~= s.queue + jobs_as_messages(jobs));
        assert(after.submitted =~= s.submitted + jobs);
    } else {
        assert(s.queue =~= s.queue + jobs_as_messages(jobs));
        assert(s.submitted =~= s.submitted + jobs);
    }
}

/// Jobs begin in submission order: when a receive hands a job to a worker,
/// it is the oldest submitted job that no worker has begun, and it counts as
/// begun from then on. So the jobs begun so far are always the first
/// `started` of those submitted.
pub proof fn lemma_jobs_begin_in_submission_order<J>(s: PoolState<J>, id: int, job: J)
    requires
        s.inv(),
        s.is_waiting(id),
        s.next_directive() == Some(Directive::Run(job)),
    ensures
        s.started < s.submitted.len(),
        job == s.submitted[s.started as int],
        s.receive(id).started == s.started + 1,
        s.receive(id).submitted == s.submitted,
        s.receive(id).is_running(id),
{
    if s.pending().len() == 0 {
        assert(s.queue[0] == terminates::<J>(s.owed_terminates())[0]);
    }
    assert(s.queue[0] == jobs_as_messages(s.pending())[0]);
}

/// Shutdown drains the pool: once every worker has exited on its order to
/// stop, the queue is empty and every job that was ever submitted has been
/// begun and has run to completion.
pub proof fn lemma_shutdown_drains<J>(s: PoolState<J>)
    requires
        s.inv(),
        s.all_exited(),
    ensures
        s.terminating,
        s.queue.len() == 0,
        s.started == s.submitted.len(),
        s.finished == s.submitted.len(),
{
    lemma_count_all(s.workers, WorkerStatus::Exited);
    lemma_count_none(s.workers, WorkerStatus::Running);
    lemma_count_none(s.workers, WorkerStatus::Crashed);
}

/// The orders to stop reach every worker: after shutdown a waiting worker
/// always finds a message in the queue, and a worker exits only when no job
/// is left to begin.
pub proof fn lemma_no_worker_is_left_waiting<J>(s: PoolState<J>, id: int)
    requires
        s.inv(),
        s.terminating,
        s.is_waiting(id),
    ensures
        s.queue.len() > 0,
        s.next_directive() == Some(Directive::<J>::Exit) ==> s.pending().len() == 0,
{
    lemma_count_all(s.workers, WorkerStatus::Exited);
    lemma_count_bound(s.workers, WorkerStatus::Exited);
    if s.pending().len() > 0 {
        assert(s.queue[0] == jobs_as_messages(s.pending())[0]);
    }
}

/// When every thread has ended and at least one worker lived to obey its
/// order to stop, every submitted job is accounted for: none is left in the
/// queue, and each has either run to completion or was lost with a worker
/// that crashed, one job for each such worker.
pub proof fn lemma_shutdown_accounts_for_every_job<J>(s: PoolState<J>, survivor: int)
    requires
        s.inv(),
        s.all_ended(),
        0 <= survivor < s.size(),
        s.workers[survivor].status == WorkerStatus::Exited,
    ensures
        s.terminating,
        s.pending().len() == 0,
        s.finished + s.count(WorkerStatus::Crashed) == s.submitted.len(),
{
    lemma_count_none(s.workers, WorkerStatus::Exited);
    lemma_count_none(s.workers, WorkerStatus::Running);
}

/// Busy workers keep no one from a job: when the first `k` workers are
/// waiting and at least `k` jobs are pending, one receive by each of them
/// sets all `k` running at the same time, on the `k` oldest pending jobs,
/// without any job having to finish first.
pub proof fn lemma_waiting_workers_run_side_by_side<J>(s: PoolState<J>, k: nat)
    requires
        s.inv(),
        k <= s.size(),
        k <= s.pending().len(),
        forall|i: int| 0 <= i < k ==> s.is_waiting(i),
    ensures
        s.receive_each(k).inv(),
        s.receive_each(k).size() == s.size(),
        s.receive_each(k).started == s.started + k,
        s.receive_each(k).finished == s.finished,
        s.receive_each(k).submitted == s.submitted,
        s.receive_each(k).terminating == s.terminating,
        forall|i: int| 0 <= i < k ==> s.receive_each(k).is_running(i),
        forall|i: int| k <= i < s.size() ==> s.receive_each(k).workers[i] == s.workers[i],
    decreases k,
{
    if k > 0 {
        let before = s.receive_each((k - 1) as nat);
        lemma_waiting_workers_run_side_by_side(s, (k - 1) as nat);
        assert(before.is_waiting(k - 1)) by {
            assert(s.is_waiting(k - 1));
        }
        assert(before.queue[0] == jobs_as_messages(before.pending())[0]);
        lemma_receive_inv(before, k - 1);
        let after = before.receive(k - 1);
        assert forall|i: int| 0 <= i < k implies after.is_running(i) by {
            if i < k - 1 {
                assert(before.is_running(i));
            }
        }
    }
}

/// A fresh pool runs as many jobs at once as it has workers: given at least
/// `size` jobs, one receive by each worker leaves every worker running, the
/// first `size` jobs begun and none finished.
pub proof fn lemma_fresh_pool_runs_size_jobs_at_once<J>(size: nat, jobs: Seq<J>)
    requires
        0 < size <= usize::MAX,
        size <= jobs.len(),
    ensures
        ({
            let s = PoolState::<J>::initial(size).submit_all(jobs).receive_each(size);
            &&& s.inv()
            &&& s.started == size
            &&& s.finished == 0
            &&& s.count(WorkerStatus::Running) == size
            &&& forall|i: int| 0 <= i < size ==> s.is_running(i)
        }),
{
    let fresh = PoolState::<J>::initial(size);
    lemma_initial_inv::<J>(size);
    lemma_accepts_any_number_of_jobs(fresh, jobs);
    let loaded = fresh.submit_all(jobs);
    assert(loaded.pending() =~= jobs);
    lemma_waiting_workers_run_side_by_side(loaded, size);
    let s = loaded.receive_each(size);
    assert forall|i: int| 0 <= i < s.workers.len() implies (#[trigger] s.workers[i]).status
        == WorkerStatus::Running by {
        assert(s.is_running(i));
    }
    lemma_count_all(s.workers, WorkerStatus::Running);
}

} // verus!
