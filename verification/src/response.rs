//! The per-call response handle: a two-phase state machine.
//!
//! Phase one waits for the worker to deliver the service's result future
//! through the one-shot bridge; phase two awaits that future itself. The
//! transitions are verified here; performing the actual suspension is the
//! caller's task runtime's business.

use vstd::prelude::*;

use crate::errors::Error;

verus! {

/// The resolution state of one response handle.
pub enum ResponseState<F> {
    /// The submission already failed; the handle resolves to the closed-error.
    Failed,
    /// Phase one: waiting for the worker to deliver the result future.
    Rx,
    /// Phase two: the delivered result future is awaited directly.
    Poll(F),
}

/// What a response handle observes when it polls the one-shot bridge.
pub enum RxPoll<F> {
    /// The worker delivered the service's result future.
    Delivered(F),
    /// Nothing yet; suspend and poll again when woken.
    Pending,
    /// The worker dropped the sender without delivering: it exited before
    /// dispatching, or the message was discarded in a cancellation race.
    SenderDropped,
}

/// What a response handle should do after one phase-one step.
#[derive(Clone, Copy, Debug, PartialEq, Eq, Structural)]
pub enum RxStep {
    /// The result future arrived; from now on await it (phase two).
    BeganInner,
    /// Still waiting; suspend.
    NotReady,
    /// Resolve to the closed-error.
    ClosedError,
}

/// Future eventually completed with the response to the submitted request.
pub struct ResponseFuture<F> {
    /// Where the handle stands in its two-phase resolution.
    pub state: ResponseState<F>,
}

impl<F> ResponseFuture<F> {
    /// A handle that is already resolved to the closed-error, returned when a
    /// submission could not be enqueued.
    pub fn failed() -> (r: Self)
        ensures
            r.state is Failed,
    {
        ResponseFuture { state: ResponseState::Failed }
    }

    /// A handle waiting for the worker's delivery.
    pub fn waiting() -> (r: Self)
        ensures
            r.state is Rx,
    {
        ResponseFuture { state: ResponseState::Rx }
    }

    /// One phase-one step, fed with what the one-shot bridge answered.
    ///
    /// A `Failed` handle resolves to the closed-error whatever the event; a
    /// waiting handle moves to phase two on delivery, suspends while pending,
    /// and resolves to the closed-error when the sender was dropped.
    pub fn poll_rx(&mut self, event: RxPoll<F>) -> (r: RxStep)
        requires
            !(old(self).state is Poll),
        ensures
            (old(self).state is Failed ==> r is ClosedError && final(self).state is Failed),
            (old(self).state is Rx ==> match event {
                RxPoll::Delivered(f) => r is BeganInner && final(self).state == ResponseState::Poll(f),
                RxPoll::Pending => r is NotReady && final(self).state is Rx,
                RxPoll::SenderDropped => r is ClosedError && final(self).state is Rx,
            }),
    {
        match self.state {
            ResponseState::Failed => RxStep::ClosedError,
            ResponseState::Rx => {
                match event {
                    RxPoll::Delivered(f) => {
                        self.state = ResponseState::Poll(f);
                        RxStep::BeganInner
                    }
                    RxPoll::Pending => RxStep::NotReady,
                    RxPoll::SenderDropped => RxStep::ClosedError,
                }
            }
            ResponseState::Poll(_) => RxStep::ClosedError,
        }
    }

    /// True once the handle is in phase two.
    pub fn is_polling(&self) -> (r: bool)
        ensures
            r == (self.state is Poll),
    {
        match self.state {
            ResponseState::Poll(_) => true,
            _ => false,
        }
    }
}

/// Maps the awaited result future's outcome into the buffer's taxonomy:
/// success passes through unchanged, a service-level failure is wrapped as an
/// inner-error, distinguished from the closed-error.
pub fn complete<T, E>(outcome: Result<T, E>) -> (r: Result<T, Error<E>>)
    ensures
        (outcome matches Ok(v) ==> r == Result::<T, Error<E>>::Ok(v)),
        (outcome matches Err(e) ==> r == Result::<T, Error<E>>::Err(Error::Inner(e))),
{
    match outcome {
        Ok(v) => Ok(v),
        Err(e) => Err(Error::Inner(e)),
    }
}

} // verus!
