//! The error taxonomy of the buffer.

use vstd::prelude::*;

verus! {

/// Errors produced by the buffer and surfaced through a response handle.
#[derive(Debug)]
pub enum Error<E> {
    /// The wrapped service's call produced an application-level error; it is
    /// passed through unchanged and concerns only that call's handle.
    Inner(E),
    /// The buffer's worker has stopped, or the request was canceled before it
    /// was dispatched.
    Closed,
}

impl<E> Error<E> {
    /// True exactly for the closed-error.
    pub fn is_closed(&self) -> (r: bool)
        ensures
            r == (self is Closed),
    {
        match self {
            Error::Closed => true,
            Error::Inner(_) => false,
        }
    }

    /// The application-level error, if this is one.
    pub fn into_inner(self) -> (r: Option<E>)
        ensures
            (self matches Error::Inner(e) ==> r == Some(e)),
            (self is Closed ==> r is None),
    {
        match self {
            Error::Inner(e) => Some(e),
            Error::Closed => None,
        }
    }

    /// A short description of the error.
    pub fn description(&self) -> (r: &'static str)
        ensures
            (self is Closed ==> r@ == "buffer closed"@),
            (self is Inner ==> r@ == "inner service error"@),
    {
        match self {
            Error::Closed => "buffer closed",
            Error::Inner(_) => "inner service error",
        }
    }
}

/// Error produced when handing the worker to an executor fails; the rejected
/// worker is kept inside so the caller can recover the service it owns.
#[derive(Debug)]
pub struct SpawnError<T> {
    /// The worker that the executor refused to run.
    pub inner: T,
}

impl<T> SpawnError<T> {
    /// Wraps a refused worker.
    pub fn new(inner: T) -> (r: Self)
        ensures
            r.inner == inner,
    {
        SpawnError { inner }
    }

    /// Recovers the refused worker, and with it the service.
    pub fn into_inner(self) -> (r: T)
        ensures
            r == self.inner,
    {
        self.inner
    }

    /// A short description of the error.
    pub fn description(&self) -> (r: &'static str)
        ensures
            r@ == "error spawning buffer task"@,
    {
        "error spawning buffer task"
    }
}

} // verus!
