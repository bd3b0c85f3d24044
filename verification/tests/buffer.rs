//! Tests of the buffer core: backpressure, dispatch order, cancellation and
//! shutdown, driven against a scripted service.

use direct_buffer::buffer::{Buffer, Dispatch, NextMsg, Readiness, Submit, WorkerPoll};
use direct_buffer::service::{DirectService, ScriptedService, ServicePoll};

fn always_ready() -> ScriptedService<u64> {
    ScriptedService::new(Vec::new(), Vec::new(), Vec::new())
}

#[test]
fn scenario_backpressure_bound_one() {
    let mut b: Buffer<u64> = Buffer::new(1);
    assert_eq!(b.poll_ready(), Readiness::Ready);
    assert_eq!(b.submit(10), Submit::Accepted(0));
    // The queue is at capacity: the next attempt is rejected, never buffered.
    assert_eq!(b.poll_ready(), Readiness::Full);
    assert_eq!(b.submit(20), Submit::Full);
    // The worker dispatches the first request, freeing the slot.
    let mut svc = always_ready();
    assert_eq!(b.worker_poll(&mut svc), WorkerPoll::Yielded);
    assert_eq!(svc.calls, vec![10u64]);
    assert_eq!(b.poll_ready(), Readiness::Ready);
    assert_eq!(b.submit(20), Submit::Accepted(1));
}

#[test]
fn fifo_dispatch_order() {
    let mut b: Buffer<u64> = Buffer::new(3);
    assert_eq!(b.submit(7), Submit::Accepted(0));
    assert_eq!(b.submit(8), Submit::Accepted(1));
    assert_eq!(b.submit(9), Submit::Accepted(2));
    let mut svc = always_ready();
    assert_eq!(b.worker_poll(&mut svc), WorkerPoll::Yielded);
    assert_eq!(svc.calls, vec![7u64, 8, 9]);
}

#[test]
fn scenario_cancel_before_worker_runs() {
    let mut b: Buffer<u64> = Buffer::new(4);
    assert_eq!(b.submit(1), Submit::Accepted(0));
    // The response handle is dropped before the worker ever examines the
    // message: the service must never see the request.
    b.cancel(0);
    let mut svc = always_ready();
    assert_eq!(b.worker_poll(&mut svc), WorkerPoll::Yielded);
    assert!(svc.calls.is_empty());
}

#[test]
fn canceled_message_is_skipped_between_live_ones() {
    let mut b: Buffer<u64> = Buffer::new(3);
    assert_eq!(b.submit(7), Submit::Accepted(0));
    assert_eq!(b.submit(8), Submit::Accepted(1));
    assert_eq!(b.submit(9), Submit::Accepted(2));
    b.cancel(1);
    let mut svc = always_ready();
    assert_eq!(b.worker_poll(&mut svc), WorkerPoll::Yielded);
    assert_eq!(svc.calls, vec![7u64, 9]);
}

#[test]
fn scenario_fatal_ready_error_closes_every_handle() {
    let mut b: Buffer<u64> = Buffer::new(4);
    assert_eq!(b.submit(1), Submit::Accepted(0));
    let mut svc = ScriptedService::new(
        vec![ServicePoll::Failed],
        Vec::new(),
        Vec::new(),
    );
    assert_eq!(b.worker_poll(&mut svc), WorkerPoll::Failed);
    // The pending request was abandoned, never dispatched.
    assert!(svc.calls.is_empty());
    // Every later check and submission observes the closed buffer, without
    // reaching the service.
    assert_eq!(b.poll_ready(), Readiness::Closed);
    assert_eq!(b.submit(2), Submit::Closed);
    assert!(svc.calls.is_empty());
}

#[test]
fn scenario_clean_shutdown_when_all_handles_dropped() {
    let mut b: Buffer<u64> = Buffer::new(2);
    b.drop_handle();
    let mut svc = ScriptedService::new(
        Vec::new(),
        vec![ServicePoll::Ready],
        vec![ServicePoll::Ready],
    );
    assert_eq!(b.worker_poll(&mut svc), WorkerPoll::Finished);
}

#[test]
fn shutdown_waits_for_service_close() {
    let mut b: Buffer<u64> = Buffer::new(2);
    b.drop_handle();
    let mut svc = ScriptedService::new(
        Vec::new(),
        Vec::new(),
        vec![ServicePoll::Pending, ServicePoll::Ready],
    );
    // Closing is not done yet: the worker yields and finishes on the next
    // poll, once the service reports fully closed.
    assert_eq!(b.worker_poll(&mut svc), WorkerPoll::Yielded);
    assert_eq!(b.worker_poll(&mut svc), WorkerPoll::Finished);
}

#[test]
fn parked_message_is_dispatched_once_service_is_ready() {
    let mut b: Buffer<u64> = Buffer::new(2);
    assert_eq!(b.submit(5), Submit::Accepted(0));
    let mut svc = ScriptedService::new(
        vec![ServicePoll::Pending],
        Vec::new(),
        Vec::new(),
    );
    // Not ready: the message parks; the slot it held in the queue is free.
    assert_eq!(b.worker_poll(&mut svc), WorkerPoll::Yielded);
    assert!(svc.calls.is_empty());
    // The script is exhausted, so the service now answers ready.
    assert_eq!(b.worker_poll(&mut svc), WorkerPoll::Yielded);
    assert_eq!(svc.calls, vec![5u64]);
}

#[test]
fn parked_message_canceled_before_reexamination() {
    let mut b: Buffer<u64> = Buffer::new(2);
    assert_eq!(b.submit(5), Submit::Accepted(0));
    let mut svc = ScriptedService::new(
        vec![ServicePoll::Pending],
        Vec::new(),
        Vec::new(),
    );
    assert_eq!(b.worker_poll(&mut svc), WorkerPoll::Yielded);
    // Canceled while parked: the worker re-examines the slot first and must
    // discard the message instead of dispatching it.
    b.cancel(0);
    assert_eq!(b.worker_poll(&mut svc), WorkerPoll::Yielded);
    assert!(svc.calls.is_empty());
}

#[test]
fn closed_is_monotonic_for_existing_and_new_clones() {
    let mut b: Buffer<u64> = Buffer::new(1);
    b.clone_handle();
    assert_eq!(b.submit(1), Submit::Accepted(0));
    let mut svc = ScriptedService::new(
        vec![ServicePoll::Failed],
        Vec::new(),
        Vec::new(),
    );
    assert_eq!(b.worker_poll(&mut svc), WorkerPoll::Failed);
    assert_eq!(b.poll_ready(), Readiness::Closed);
    // A clone taken after closure observes the same closed flag.
    b.clone_handle();
    assert_eq!(b.poll_ready(), Readiness::Closed);
    assert_eq!(b.submit(9), Submit::Closed);
}

#[test]
fn dispatch_steps_reexamine_the_parked_message() {
    let mut b: Buffer<u64> = Buffer::new(2);
    assert_eq!(b.submit(11), Submit::Accepted(0));
    assert_eq!(b.submit(12), Submit::Accepted(1));
    assert_eq!(b.worker_next_msg(), NextMsg::Msg);
    match b.worker_dispatch(ServicePoll::Pending) {
        Dispatch::Parked => {}
        _ => panic!("expected the message to park"),
    }
    // The parked message comes first again, in submission order.
    assert_eq!(b.worker_next_msg(), NextMsg::Msg);
    match b.worker_dispatch(ServicePoll::Ready) {
        Dispatch::Dispatched(r) => assert_eq!(r, 11),
        _ => panic!("expected a dispatch"),
    }
    assert_eq!(b.worker_next_msg(), NextMsg::Msg);
    match b.worker_dispatch(ServicePoll::Ready) {
        Dispatch::Dispatched(r) => assert_eq!(r, 12),
        _ => panic!("expected a dispatch"),
    }
    assert_eq!(b.worker_next_msg(), NextMsg::Pending);
}

#[test]
fn fatal_dispatch_step_abandons_the_message() {
    let mut b: Buffer<u64> = Buffer::new(2);
    assert_eq!(b.submit(3), Submit::Accepted(0));
    assert_eq!(b.worker_next_msg(), NextMsg::Msg);
    match b.worker_dispatch(ServicePoll::Failed) {
        Dispatch::Fatal => {}
        _ => panic!("expected a fatal failure"),
    }
    assert_eq!(b.poll_ready(), Readiness::Closed);
}

#[test]
fn queue_is_drained_after_handles_are_dropped() {
    let mut b: Buffer<u64> = Buffer::new(2);
    assert_eq!(b.submit(5), Submit::Accepted(0));
    b.drop_handle();
    let mut svc = always_ready();
    // One poll dispatches the remaining message and then finishes cleanly.
    assert_eq!(b.worker_poll(&mut svc), WorkerPoll::Finished);
    assert_eq!(svc.calls, vec![5u64]);
    // The terminated buffer answers closed-error from now on.
    assert_eq!(b.poll_ready(), Readiness::Closed);
}

#[test]
fn outstanding_failure_terminates_the_worker() {
    let mut b: Buffer<u64> = Buffer::new(2);
    assert_eq!(b.submit(1), Submit::Accepted(0));
    let mut svc = ScriptedService::new(
        vec![ServicePoll::Pending],
        vec![ServicePoll::Failed],
        Vec::new(),
    );
    // The message parks, and advancing outstanding work fails fatally.
    assert_eq!(b.worker_poll(&mut svc), WorkerPoll::Failed);
    assert!(svc.calls.is_empty());
    // Handles observe the dead worker as a closed buffer.
    assert_eq!(b.poll_ready(), Readiness::Closed);
    assert_eq!(b.submit(2), Submit::Closed);
}

#[test]
fn cancellation_after_examination_loses_the_race() {
    let mut b: Buffer<u64> = Buffer::new(2);
    assert_eq!(b.submit(5), Submit::Accepted(0));
    assert_eq!(b.worker_next_msg(), NextMsg::Msg);
    // Too late: the worker already examined the message, so the dispatch
    // may still happen (the design accepts this narrow race).
    b.cancel(0);
    match b.worker_dispatch(ServicePoll::Ready) {
        Dispatch::Dispatched(r) => assert_eq!(r, 5),
        _ => panic!("expected the dispatch to win the race"),
    }
}

#[test]
fn new_submissions_reach_an_idle_worker() {
    let mut b: Buffer<u64> = Buffer::new(2);
    assert_eq!(b.worker_next_msg(), NextMsg::Pending);
    assert_eq!(b.submit(5), Submit::Accepted(0));
    assert_eq!(b.worker_next_msg(), NextMsg::Msg);
}

#[test]
fn scripted_service_answers_ready_after_script_ends() {
    let mut svc: ScriptedService<u64> = ScriptedService::new(
        vec![ServicePoll::Pending],
        vec![ServicePoll::Pending],
        Vec::new(),
    );
    assert_eq!(svc.poll_ready(), ServicePoll::Pending);
    assert_eq!(svc.poll_ready(), ServicePoll::Ready);
    assert_eq!(svc.poll_outstanding(), ServicePoll::Pending);
    assert_eq!(svc.poll_outstanding(), ServicePoll::Ready);
    assert_eq!(svc.poll_close(), ServicePoll::Ready);
    svc.call(4);
    svc.call(6);
    assert_eq!(svc.calls, vec![4u64, 6]);
}
