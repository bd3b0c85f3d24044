//! Tests of the response handle's two-phase resolution and the error
//! taxonomy.

use direct_buffer::errors::{Error, SpawnError};
use direct_buffer::response::{complete, ResponseFuture, ResponseState, RxPoll, RxStep};

#[test]
fn response_two_phase_resolution() {
    let mut rf: ResponseFuture<u64> = ResponseFuture::waiting();
    assert!(!rf.is_polling());
    // Phase one suspends until the worker delivers the result future.
    assert_eq!(rf.poll_rx(RxPoll::Pending), RxStep::NotReady);
    assert!(!rf.is_polling());
    assert_eq!(rf.poll_rx(RxPoll::Delivered(42)), RxStep::BeganInner);
    assert!(rf.is_polling());
    match rf.state {
        ResponseState::Poll(f) => assert_eq!(f, 42),
        _ => panic!("expected phase two"),
    }
}

#[test]
fn response_sender_dropped_resolves_closed() {
    let mut rf: ResponseFuture<u64> = ResponseFuture::waiting();
    assert_eq!(rf.poll_rx(RxPoll::SenderDropped), RxStep::ClosedError);
}

#[test]
fn failed_response_resolves_closed_immediately() {
    let mut rf: ResponseFuture<u64> = ResponseFuture::failed();
    assert_eq!(rf.poll_rx(RxPoll::Pending), RxStep::ClosedError);
    assert_eq!(rf.poll_rx(RxPoll::SenderDropped), RxStep::ClosedError);
    assert!(!rf.is_polling());
}

#[test]
fn phase_two_outcome_mapping() {
    let ok: Result<u64, &str> = Ok(3);
    assert!(matches!(complete(ok), Ok(3)));
    let err: Result<u64, &str> = Err("boom");
    match complete(err) {
        Err(Error::Inner(e)) => assert_eq!(e, "boom"),
        _ => panic!("expected the inner error to pass through"),
    }
}

#[test]
fn error_taxonomy() {
    let closed: Error<u64> = Error::Closed;
    assert!(closed.is_closed());
    assert_eq!(closed.description(), "buffer closed");
    assert!(closed.into_inner().is_none());
    let inner: Error<u64> = Error::Inner(9);
    assert!(!inner.is_closed());
    assert_eq!(inner.description(), "inner service error");
    assert_eq!(inner.into_inner(), Some(9));
}

#[test]
fn spawn_error_returns_the_worker() {
    let e = SpawnError::new(String::from("the worker"));
    assert_eq!(e.description(), "error spawning buffer task");
    assert_eq!(e.into_inner(), "the worker");
}
