//! The entries of the job queue and the rule a worker follows on each of
//! them.

use vstd::prelude::*;

verus! {

/// One entry of the job queue.
#[derive(Debug, PartialEq, Eq)]
pub enum Message<J> {
    /// A job to run.
    NewJob(J),
    /// The order to stop: each one ends exactly one worker.
    Terminate,
}

/// What a worker does next.
#[derive(Debug, PartialEq, Eq)]
pub enum Directive<J> {
    /// Run the job to completion, then receive again.
    Run(J),
    /// Leave the loop and return from the thread.
    Exit,
}

/// The worker's rule. A job is run, the order to stop is obeyed, and a queue
/// that can yield nothing any more (every sender is gone) counts as the order
/// to stop.
pub open spec fn directive_of<J>(received: Option<Message<J>>) -> Directive<J> {
    match received {
        Some(Message::NewJob(job)) => Directive::Run(job),
        Some(Message::Terminate) => Directive::Exit,
        None => Directive::Exit,
    }
}

/// Decides what a worker does with what its receive returned.
pub fn directive<J>(received: Option<Message<J>>) -> (step: Directive<J>)
    ensures
        step == directive_of(received),
{
    match received {
        Some(Message::NewJob(job)) => Directive::Run(job),
        Some(Message::Terminate) => Directive::Exit,
        None => Directive::Exit,
    }
}

/// The queue entries that carry `jobs`, in the same order.
pub open spec fn jobs_as_messages<J>(jobs: Seq<J>) -> Seq<Message<J>> {
    Seq::new(jobs.len(), |i: int| Message::NewJob(jobs[i]))
}

/// `n` orders to stop.
pub open spec fn terminates<J>(n: nat) -> Seq<Message<J>> {
    Seq::new(n, |i: int| Message::Terminate)
}

} // verus!
