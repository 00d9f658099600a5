//! The record the pool keeps of each worker.

use vstd::prelude::*;

verus! {

/// Where a worker's thread stands.
#[derive(Clone, Copy, PartialEq, Eq, Structural, Debug)]
pub enum WorkerStatus {
    /// Blocked on the queue, waiting for the next message.
    Waiting,
    /// Running a job.
    Running,
    /// Returned from its loop after the order to stop.
    Exited,
    /// Died inside a job; the job it ran is lost.
    Crashed,
}

/// A worker: its identity, where its thread stands, and whether the pool
/// still holds the handle of the thread. The handle is given up once, to be
/// joined, and never comes back.
#[derive(Clone, Copy, PartialEq, Eq, Structural, Debug)]
pub struct Worker {
    pub id: usize,
    pub status: WorkerStatus,
    pub joinable: bool,
}

impl Worker {
    /// The record of worker `id` as its thread starts: waiting on the queue,
    /// its handle held by the pool.
    pub fn new(id: usize) -> (worker: Worker)
        ensures
            worker == (Worker { id, status: WorkerStatus::Waiting, joinable: true }),
    {
        Worker { id, status: WorkerStatus::Waiting, joinable: true }
    }
}

/// How many of `workers` stand at `status`.
pub open spec fn count_status(workers: Seq<Worker>, status: WorkerStatus) -> nat
    decreases workers.len(),
{
    if workers.len() == 0 {
        0
    } else {
        count_status(workers.drop_last(), status) + if workers.last().status == status {
            1nat
        } else {
            0nat
        }
    }
}

/// No more workers stand at a status than there are workers.
pub proof fn lemma_count_bound(workers: Seq<Worker>, status: WorkerStatus)
    ensures
        count_status(workers, status) <= workers.len(),
    decreases workers.len(),
{
    if workers.len() > 0 {
        lemma_count_bound(workers.drop_last(), status);
    }
}

/// The count is zero exactly when no worker stands at the status.
pub proof fn lemma_count_none(workers: Seq<Worker>, status: WorkerStatus)
    ensures
        count_status(workers, status) == 0 <==> forall|i: int|
            0 <= i < workers.len() ==> (#[trigger] workers[i]).status != status,
    decreases workers.len(),
{
    if workers.len() > 0 {
        let init = workers.drop_last();
        lemma_count_none(init, status);
        if count_status(workers, status) == 0 {
            assert forall|i: int| 0 <= i < workers.len() implies (#[trigger] workers[i]).status
                != status by {
                if i < init.len() {
                    assert(init[i] == workers[i]);
                }
            }
        } else {
            if workers.last().status != status {
                let k = choose|k: int| 0 <= k < init.len() && (#[trigger] init[k]).status == status;
                assert(workers[k] == init[k]);
            }
        }
    }
}

/// The count is the number of workers exactly when all stand at the status.
pub proof fn lemma_count_all(workers: Seq<Worker>, status: WorkerStatus)
    ensures
        count_status(workers, status) == workers.len() <==> forall|i: int|
            0 <= i < workers.len() ==> (#[trigger] workers[i]).status == status,
    decreases workers.len(),
{
    if workers.len() > 0 {
        let init = workers.drop_last();
        lemma_count_all(init, status);
        lemma_count_bound(init, status);
        if count_status(workers, status) == workers.len() {
            assert forall|i: int| 0 <= i < workers.len() implies (#[trigger] workers[i]).status
                == status by {
                if i < init.len() {
                    assert(init[i] == workers[i]);
                }
            }
        } else {
            if workers.last().status == status {
                let k = choose|k: int| 0 <= k < init.len() && (#[trigger] init[k]).status != status;
                assert(workers[k] == init[k]);
            }
        }
    }
}

/// Replacing one worker's record moves the count of a status by that worker
/// alone.
proof fn lemma_count_update(workers: Seq<Worker>, i: int, worker: Worker, status: WorkerStatus)
    requires
        0 <= i < workers.len(),
    ensures
        count_status(workers.update(i, worker), status) + (if workers[i].status == status {
            1nat
        } else {
            0nat
        }) == count_status(workers, status) + (if worker.status == status {
            1nat
        } else {
            0nat
        }),
    decreases workers.len(),
{
    let updated = workers.update(i, worker);
    if i == workers.len() - 1 {
        assert(updated.drop_last() =~= workers.drop_last());
    } else {
        lemma_count_update(workers.drop_last(), i, worker, status);
        assert(updated.drop_last() =~= workers.drop_last().update(i, worker));
    }
}

/// Replacing the record of worker `i` by `worker` moves the count of
/// `status` by that worker alone.
pub open spec fn count_moves_by_one(
    workers: Seq<Worker>,
    i: int,
    worker: Worker,
    status: WorkerStatus,
) -> bool {
    count_status(workers.update(i, worker), status) + (if workers[i].status == status {
        1nat
    } else {
        0nat
    }) == count_status(workers, status) + (if worker.status == status {
        1nat
    } else {
        0nat
    })
}

/// Replacing one worker's record moves every count by that worker alone.
pub proof fn lemma_count_replace(workers: Seq<Worker>, i: int, worker: Worker)
    requires
        0 <= i < workers.len(),
    ensures
        count_moves_by_one(workers, i, worker, WorkerStatus::Waiting),
        count_moves_by_one(workers, i, worker, WorkerStatus::Running),
        count_moves_by_one(workers, i, worker, WorkerStatus::Exited),
        count_moves_by_one(workers, i, worker, WorkerStatus::Crashed),
{
    lemma_count_update(workers, i, worker, WorkerStatus::Waiting);
    lemma_count_update(workers, i, worker, WorkerStatus::Running);
    lemma_count_update(workers, i, worker, WorkerStatus::Exited);
    lemma_count_update(workers, i, worker, WorkerStatus::Crashed);
}

} // verus!
