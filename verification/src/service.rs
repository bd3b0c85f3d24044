//! The boundary to the wrapped service.

use vstd::prelude::*;

verus! {

/// Outcome of one non-blocking poll of the wrapped service.
#[derive(Clone, Copy, Debug, PartialEq, Eq, Structural)]
pub enum ServicePoll {
    /// The polled operation is complete or the service can accept a call.
    Ready,
    /// Not yet; poll again after the service makes progress.
    Pending,
    /// The service failed fatally for this operation.
    Failed,
}

/// The capabilities the wrapped service must expose to the worker.
///
/// `call` may only be invoked after `poll_ready` returned `Ready` and accepts
/// exactly one request per such readiness; `poll_outstanding` advances
/// already-accepted, uncompleted work without accepting new requests;
/// `poll_close` begins or continues graceful shutdown, `Ready` meaning fully
/// closed. Implementations are free in how they answer: the worker is
/// verified against every answer.
pub trait DirectService<R> {
    /// Non-blocking readiness check before a call.
    fn poll_ready(&mut self) -> ServicePoll;

    /// Hands one request to the service.
    fn call(&mut self, request: R);

    /// Advances previously accepted, not-yet-completed work.
    fn poll_outstanding(&mut self) -> ServicePoll;

    /// Begins or continues graceful shutdown.
    fn poll_close(&mut self) -> ServicePoll;
}

/// A service whose poll answers follow fixed scripts, recording every request
/// it is handed. Once a script is exhausted the service keeps answering
/// `Ready`.
pub struct ScriptedService<R> {
    /// Answers for `poll_ready`, consumed front to back.
    pub ready_script: Vec<ServicePoll>,
    /// How many `poll_ready` answers were consumed.
    pub ready_at: usize,
    /// Answers for `poll_outstanding`, consumed front to back.
    pub outstanding_script: Vec<ServicePoll>,
    /// How many `poll_outstanding` answers were consumed.
    pub outstanding_at: usize,
    /// Answers for `poll_close`, consumed front to back.
    pub close_script: Vec<ServicePoll>,
    /// How many `poll_close` answers were consumed.
    pub close_at: usize,
    /// Every request handed to `call`, in order.
    pub calls: Vec<R>,
}

impl<R> ScriptedService<R> {
    /// A scripted service with the given answers and no calls yet.
    pub fn new(
        ready_script: Vec<ServicePoll>,
        outstanding_script: Vec<ServicePoll>,
        close_script: Vec<ServicePoll>,
    ) -> (r: Self)
        ensures
            r.ready_script == ready_script,
            r.outstanding_script == outstanding_script,
            r.close_script == close_script,
            r.ready_at == 0usize,
            r.outstanding_at == 0usize,
            r.close_at == 0usize,
            r.calls@.len() == 0,
    {
        ScriptedService {
            ready_script,
            ready_at: 0,
            outstanding_script,
            outstanding_at: 0,
            close_script,
            close_at: 0,
            calls: Vec::new(),
        }
    }
}

impl<R> DirectService<R> for ScriptedService<R> {
    fn poll_ready(&mut self) -> ServicePoll {
        if self.ready_at < self.ready_script.len() {
            let r = self.ready_script[self.ready_at];
            self.ready_at = self.ready_at + 1;
            r
        } else {
            ServicePoll::Ready
        }
    }

    fn call(&mut self, request: R) {
        self.calls.push(request);
    }

    fn poll_outstanding(&mut self) -> ServicePoll {
        if self.outstanding_at < self.outstanding_script.len() {
            let r = self.outstanding_script[self.outstanding_at];
            self.outstanding_at = self.outstanding_at + 1;
            r
        } else {
            ServicePoll::Ready
        }
    }

    fn poll_close(&mut self) -> ServicePoll {
        if self.close_at < self.close_script.len() {
            let r = self.close_script[self.close_at];
            self.close_at = self.close_at + 1;
            r
        } else {
            ServicePoll::Ready
        }
    }
}

} // verus!
