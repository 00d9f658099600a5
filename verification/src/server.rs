//! The accept loop as a state machine: what the daemon does with each thing
//! its listener yields, and how it ends.

use vstd::prelude::*;

verus! {

#[verifier::external_type_specification]
#[verifier::external_body]
pub struct ExIoError(std::io::Error);

/// How the accept loop ended.
#[derive(Clone, Copy, PartialEq, Eq, Structural, Debug)]
pub enum Outcome {
    /// The listener was cancelled: an orderly shutdown.
    Clean,
    /// The listener failed.
    Failed,
}

/// Where the accept loop stands.
#[derive(Clone, Copy, PartialEq, Eq, Structural, Debug)]
pub enum State {
    /// Connections are accepted and handed to the pool.
    Accepting,
    /// The loop has ended and the pool is shut down. Nothing leads out of
    /// this state.
    Drained(Outcome),
}

/// What an accept yielded.
#[derive(Debug)]
pub enum Event<C, E> {
    /// A connection arrived.
    Connection(C),
    /// The listener was cancelled.
    Cancelled,
    /// The listener failed with an error of its own.
    Failed(E),
}

/// What the daemon does in answer to an event.
#[derive(Debug)]
pub enum Action<C, E> {
    /// Submit the servicing of the connection to the pool and accept again.
    Submit(C),
    /// Leave the loop and shut the pool down: send the orders to stop, join
    /// every worker.
    Drain,
    /// Shut the pool down in the same way, then report the error.
    DrainAndFail(E),
    /// The loop has ended before: nothing is left to do.
    Return,
}

/// Whether `error` is the one that a cancelled operation of the listener
/// returns: the answer of `cancellable_io::is_cancelled`, which reads the
/// error's kind and text and nothing else.
pub uninterp spec fn cancellation(error: std::io::Error) -> bool;

/// Asks `cancellable_io::is_cancelled` whether `error` reports a cancelled
/// operation.
///
/// The answer is taken on trust to be `cancellation` of the error: the same
/// error always gets the same answer. What the answer is for a given error
/// is not claimed.
#[verifier::external_body]
fn reports_cancellation(error: &std::io::Error) -> (cancelled: bool)
    ensures
        cancelled == cancellation(*error),
{
    cancellable_io::is_cancelled(error)
}

impl Outcome {
    /// The exit code of the process: zero exactly after an orderly shutdown.
    pub fn exit_code(self) -> (code: i32)
        ensures
            code == (if self == Outcome::Clean {
                0i32
            } else {
                1i32
            }),
    {
        match self {
            Outcome::Clean => 0,
            Outcome::Failed => 1,
        }
    }
}

impl State {
    /// The state after `event`. While accepting, a connection keeps the loop
    /// going, a cancellation ends it in order, a failure ends it in error.
    /// Once drained, the state never changes.
    pub open spec fn next<C, E>(self, event: Event<C, E>) -> State {
        match self {
            State::Accepting => match event {
                Event::Connection(_) => State::Accepting,
                Event::Cancelled => State::Drained(Outcome::Clean),
                Event::Failed(_) => State::Drained(Outcome::Failed),
            },
            State::Drained(outcome) => State::Drained(outcome),
        }
    }

    /// What is done in answer to `event`.
    pub open spec fn action<C, E>(self, event: Event<C, E>) -> Action<C, E> {
        match self {
            State::Accepting => match event {
                Event::Connection(connection) => Action::Submit(connection),
                Event::Cancelled => Action::Drain,
                Event::Failed(error) => Action::DrainAndFail(error),
            },
            State::Drained(_) => Action::Return,
        }
    }

    /// One turn of the accept loop: the next state and what to do.
    pub fn on_event<C, E>(self, event: Event<C, E>) -> (step: (State, Action<C, E>))
        ensures
            step.0 == self.next(event),
            step.1 == self.action(event),
    {
        match self {
            State::Accepting => match event {
                Event::Connection(connection) => (State::Accepting, Action::Submit(connection)),
                Event::Cancelled => (State::Drained(Outcome::Clean), Action::Drain),
                Event::Failed(error) => (
                    State::Drained(Outcome::Failed),
                    Action::DrainAndFail(error),
                ),
            },
            State::Drained(outcome) => (State::Drained(outcome), Action::Return),
        }
    }
}

/// The event for an error of the listener, given whether the error reports a
/// cancellation.
pub fn classify_error<C, E>(error: E, cancelled: bool) -> (event: Event<C, E>)
    ensures
        event == (if cancelled {
            Event::<C, E>::Cancelled
        } else {
            Event::<C, E>::Failed(error)
        }),
{
    if cancelled {
        Event::Cancelled
    } else {
        Event::Failed(error)
    }
}

/// The event for what an accept returned. A connection is a connection. An
/// error that reports a cancellation is a cancellation, and every other
/// error is a failure that carries the error.
pub fn classify<C>(accepted: Result<C, std::io::Error>) -> (event: Event<C, std::io::Error>)
    ensures
        match accepted {
            Ok(connection) => event == Event::<C, std::io::Error>::Connection(connection),
            Err(error) => event == (if cancellation(error) {
                Event::<C, std::io::Error>::Cancelled
            } else {
                Event::<C, std::io::Error>::Failed(error)
            }),
        },
{
    match accepted {
        Ok(connection) => Event::Connection(connection),
        Err(error) => {
            let cancelled = reports_cancellation(&error);
            classify_error(error, cancelled)
        },
    }
}

/// A cancellation takes effect once: handling it a second time, or any
/// number of times, leaves the loop where the first left it, and asks for
/// nothing more.
pub proof fn lemma_cancellation_is_idempotent<C, E>(state: State)
    ensures
        state.next(Event::<C, E>::Cancelled).next(Event::<C, E>::Cancelled) == state.next(
            Event::<C, E>::Cancelled,
        ),
        state.next(Event::<C, E>::Cancelled).action(Event::<C, E>::Cancelled) == Action::<
            C,
            E,
        >::Return,
        state.next(Event::<C, E>::Cancelled) is Drained,
{
}

/// The drained state is final: no event leads out of it or asks for
/// anything.
pub proof fn lemma_drained_is_final<C, E>(outcome: Outcome, event: Event<C, E>)
    ensures
        State::Drained(outcome).next(event) == State::Drained(outcome),
        State::Drained(outcome).action(event) == Action::<C, E>::Return,
{
}

} // verus!
