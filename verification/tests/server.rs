use hello::message::Directive;
use hello::server::{classify, classify_error, Action, Event, Outcome, State};
use hello::threadpool::ThreadPool;
use hello::worker::WorkerStatus;
use std::io::{Error, ErrorKind};

#[test]
fn connection_is_submitted_and_the_loop_goes_on() {
    let (state, action) = State::Accepting.on_event(Event::<u32, ()>::Connection(9));
    assert_eq!(state, State::Accepting);
    assert!(matches!(action, Action::Submit(9)));
}

#[test]
fn cancellation_drains_the_pool_and_ends_in_order() {
    let (state, action) = State::Accepting.on_event(Event::<u32, ()>::Cancelled);
    assert_eq!(state, State::Drained(Outcome::Clean));
    assert!(matches!(action, Action::Drain));
    assert_eq!(Outcome::Clean.exit_code(), 0);
}

#[test]
fn failure_drains_the_pool_and_ends_in_error() {
    let (state, action) = State::Accepting.on_event(Event::<u32, &str>::Failed("reset"));
    assert_eq!(state, State::Drained(Outcome::Failed));
    assert!(matches!(action, Action::DrainAndFail("reset")));
    assert_ne!(Outcome::Failed.exit_code(), 0);
    assert_eq!(Outcome::Failed.exit_code(), 1);
}

#[test]
fn cancelling_again_changes_nothing() {
    let (once, _) = State::Accepting.on_event(Event::<u32, ()>::Cancelled);
    let (twice, action) = once.on_event(Event::<u32, ()>::Cancelled);
    assert_eq!(twice, once);
    assert!(matches!(action, Action::Return));
    let (thrice, action) = twice.on_event(Event::<u32, ()>::Cancelled);
    assert_eq!(thrice, once);
    assert!(matches!(action, Action::Return));
}

#[test]
fn drained_state_is_final() {
    for outcome in [Outcome::Clean, Outcome::Failed] {
        let drained = State::Drained(outcome);
        let (state, action) = drained.on_event(Event::<u32, ()>::Connection(1));
        assert_eq!(state, drained);
        assert!(matches!(action, Action::Return));
        let (state, action) = drained.on_event(Event::<u32, ()>::Failed(()));
        assert_eq!(state, drained);
        assert!(matches!(action, Action::Return));
    }
}

#[test]
fn error_is_classified_by_the_flag() {
    assert!(matches!(classify_error::<u32, &str>("x", true), Event::Cancelled));
    assert!(matches!(classify_error::<u32, &str>("x", false), Event::Failed("x")));
}

#[test]
fn accept_results_are_classified() {
    assert!(matches!(classify(Ok::<u32, Error>(5)), Event::Connection(5)));
    let cancelled = Error::new(ErrorKind::Other, "cancelled");
    assert!(matches!(classify::<u32>(Err(cancelled)), Event::Cancelled));
    let refused = Error::new(ErrorKind::ConnectionRefused, "refused");
    match classify::<u32>(Err(refused)) {
        Event::Failed(e) => assert_eq!(e.kind(), ErrorKind::ConnectionRefused),
        other => panic!("unexpected event {:?}", other),
    }
    let interrupted = Error::new(ErrorKind::Interrupted, "cancelled");
    assert!(matches!(classify::<u32>(Err(interrupted)), Event::Failed(_)));
}

#[test]
fn cancel_ends_the_loop_and_the_pool_joins_all_workers() {
    let mut pool: ThreadPool<u32> = ThreadPool::new(3);
    let mut state = State::Accepting;
    let events = vec![
        Event::<u32, ()>::Connection(1),
        Event::Connection(2),
        Event::Cancelled,
    ];
    for event in events {
        let (next, action) = state.on_event(event);
        state = next;
        match action {
            Action::Submit(connection) => pool.execute(connection),
            Action::Drain => pool.shutdown(),
            other => panic!("unexpected action {:?}", other),
        }
    }
    assert_eq!(state, State::Drained(Outcome::Clean));
    let mut served = Vec::new();
    for id in [0, 1, 2, 0, 1] {
        match pool.receive(id) {
            Some(Directive::Run(connection)) => {
                served.push(connection);
                pool.complete(id);
            }
            Some(Directive::Exit) => {}
            None => panic!("a waiting worker found nothing after shutdown"),
        }
    }
    assert_eq!(served, vec![1, 2]);
    let mut joined = Vec::new();
    while let Some(id) = pool.join_next() {
        assert_eq!(pool.worker(id).unwrap().status, WorkerStatus::Exited);
        joined.push(id);
    }
    assert_eq!(joined, vec![0, 1, 2]);
    assert_eq!(pool.queued(), 0);
}
