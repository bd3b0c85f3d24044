//! A bounded buffer in front of a single-owner service.
//!
//! Many callers share one stateful, non-cloneable service through a cloneable
//! front end: requests wait in a bounded queue, a single worker owns the
//! service and drains the queue in order, and each call resolves through a
//! two-phase response handle. The queue applies backpressure instead of
//! buffering without bound, a dropped response handle cancels its request
//! before dispatch, and a single monotonic open/closed flag propagates
//! shutdown to every handle.

pub mod buffer;
pub mod errors;
pub mod response;
pub mod service;
