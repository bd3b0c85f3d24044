//! The core of the buffer: the bounded queue, the cloneable front end and the
//! worker that owns the wrapped service, with the dispatch protocol verified.
//!
//! `Buffer` models one buffer instance as a whole: the shared open/closed
//! flag, the queued messages, the number of live front-end handles, and the
//! worker's private state. Callers interleave front-end operations
//! (`poll_ready`, `submit`, `cancel`, handle cloning and dropping) with the
//! worker's steps; each operation is atomic, which matches the cooperative,
//! non-blocking scheduling the buffer is written for. Ghost logs record which
//! messages were dispatched and which were skipped, and the well-formedness
//! invariant ties them to the queue, which is what the ordering,
//! backpressure, cancellation and exactly-once laws are proved from.

use vstd::prelude::*;

use crate::service::{DirectService, ServicePoll};

verus! {

/// A queued request: its submission index, its cancellation flag, and the
/// request itself. The one-shot completion sender that travels with a real
/// message is represented by the submission index, which keys the response
/// handle.
pub struct Msg<R> {
    /// Submission index: the position of this message in the accepted log.
    pub id: usize,
    /// True once the response handle for this message was dropped.
    pub canceled: bool,
    /// The request to hand to the wrapped service.
    pub request: R,
}

/// Outcome of submitting a request through a front-end handle.
#[derive(Clone, Copy, Debug, PartialEq, Eq, Structural)]
pub enum Submit {
    /// The message was enqueued; the index keys its response handle.
    Accepted(usize),
    /// The queue is at capacity; nothing was enqueued (backpressure).
    Full,
    /// The buffer is closed; nothing was enqueued and the response handle
    /// resolves immediately to the closed-error.
    Closed,
}

/// Outcome of the front end's non-blocking readiness check.
#[derive(Clone, Copy, Debug, PartialEq, Eq, Structural)]
pub enum Readiness {
    /// A submission would currently be accepted.
    Ready,
    /// The queue is at capacity; retry after the worker drains it.
    Full,
    /// The buffer is closed; every later check answers the same.
    Closed,
}

/// What the worker's message acquisition step found.
#[derive(Clone, Copy, Debug, PartialEq, Eq, Structural)]
pub enum NextMsg {
    /// A live message is in the worker's slot, ready for dispatch.
    Msg,
    /// No message will ever arrive again: every handle is gone and the queue
    /// is drained. The worker is finishing.
    Finished,
    /// The queue is momentarily empty but handles are still alive.
    Pending,
}

/// Outcome of one dispatch attempt against the wrapped service's readiness.
pub enum Dispatch<R> {
    /// The service was ready: the request was taken for exactly one call.
    Dispatched(R),
    /// The service was not ready: the message stays parked in the worker's
    /// slot and is re-examined first on the next pass.
    Parked,
    /// The service failed fatally: the buffer is closed, the worker is done,
    /// and the in-hand message is abandoned.
    Fatal,
}

/// Why the worker's poll returned control.
#[derive(Clone, Copy, Debug, PartialEq, Eq, Structural)]
pub enum WorkerPoll {
    /// Nothing to do right now; poll again when woken.
    Yielded,
    /// Clean termination: no more messages will ever arrive and the service
    /// closed.
    Finished,
    /// The service failed fatally; the worker terminated.
    Failed,
}

/// `m` with its cancellation flag raised if it carries submission index `id`,
/// unchanged otherwise.
pub open spec fn with_cancel<R>(m: Msg<R>, id: usize) -> Msg<R> {
    if m.id == id {
        Msg { id: m.id, canceled: true, request: m.request }
    } else {
        m
    }
}

/// The index of the first message in `s` whose response handle is still
/// held, or `s.len()` when every message in `s` is canceled.
pub open spec fn first_live<R>(s: Seq<Msg<R>>) -> int
    decreases s.len(),
{
    if s.len() <= 0 {
        0
    } else if !s[0].canceled {
        0
    } else {
        1 + first_live(s.skip(1))
    }
}

/// `first_live` points at the first non-canceled message: everything before
/// it is canceled, and it is in bounds exactly when a live message exists.
pub proof fn lemma_first_live<R>(s: Seq<Msg<R>>)
    ensures
        0 <= first_live(s) <= s.len(),
        (forall |i: int| 0 <= i < first_live(s) ==> (#[trigger] s[i]).canceled),
        (first_live(s) < s.len() ==> !s[first_live(s)].canceled),
    decreases s.len(),
{
    if s.len() > 0 && s[0].canceled {
        let t = s.skip(1);
        lemma_first_live(t);
        assert forall |i: int| 0 <= i < first_live(s) implies (#[trigger] s[i]).canceled by {
            if i >= 1 {
                assert(t[i - 1] == s[i]);
            }
        }
        if first_live(s) < s.len() {
            assert(t[first_live(s) - 1] == s[first_live(s)]);
        }
    }
}

/// The dispatch-shape clause carries over between two states that agree on
/// the open flag, the cancellation set, the dispatch log and the boundary.
proof fn lemma_fifo_shape_carries<R>(a: Buffer<R>, c: Buffer<R>)
    requires
        a.fifo_shape(),
        c.open == a.open,
        c.canceled@ == a.canceled@,
        c.dispatched@ == a.dispatched@,
        c.boundary() == a.boundary(),
    ensures
        c.fifo_shape(),
{
    if c.open && (forall |id: usize| !(#[trigger] c.canceled@.contains(id))) {
        assert forall |id: usize| !(#[trigger] a.canceled@.contains(id)) by {
            assert(!c.canceled@.contains(id));
        }
        assert(c.dispatched@ =~= Seq::new(c.boundary() as nat, |i: int| i as usize));
    }
}

/// The worker's private state: the slot for a message pulled but not yet
/// dispatched, and the shutdown flags.
pub struct Worker<R> {
    /// At most one message pulled from the queue but not yet dispatched; it
    /// is re-examined before any new message is pulled, preserving order.
    pub current: Option<Msg<R>>,
    /// True once the queue can never yield again: all handles were dropped
    /// and the queue was drained.
    pub finish: bool,
    /// True once the worker terminated, cleanly or fatally; it never runs
    /// again.
    pub done: bool,
}

/// One buffer instance: front end, queue, shared flag and worker together.
pub struct Buffer<R> {
    /// Queue capacity, fixed at construction.
    pub bound: usize,
    /// The shared open/closed flag; monotonic, `true` only until the first
    /// closure.
    pub open: bool,
    /// How many front-end handles are alive.
    pub handles: usize,
    /// The bounded queue, oldest message first.
    pub queue: Vec<Msg<R>>,
    /// The worker's private state.
    pub worker: Worker<R>,
    /// The next submission index; equals the number of accepted messages.
    pub next_id: usize,
    /// Ghost log of every accepted request, in submission order, indexed by
    /// submission index.
    pub accepted: Ghost<Seq<R>>,
    /// Ghost log of the submission indices handed to the service, in dispatch
    /// order.
    pub dispatched: Ghost<Seq<usize>>,
    /// Ghost set of submission indices consumed without a dispatch: discarded
    /// as canceled when examined, or abandoned on a fatal service error.
    pub skipped: Ghost<Set<usize>>,
    /// Ghost set of submission indices whose response handle was dropped.
    pub canceled: Ghost<Set<usize>>,
}

impl<R> Buffer<R> {
    /// The messages the worker has yet to consume, oldest first: the parked
    /// one, then the queue.
    pub open spec fn pending(self) -> Seq<Msg<R>> {
        match self.worker.current {
            Some(m) => seq![m] + self.queue@,
            None => self.queue@,
        }
    }

    /// The submission index of the oldest unconsumed message; every smaller
    /// index was consumed (dispatched or skipped).
    pub open spec fn boundary(self) -> int {
        self.next_id - self.pending().len()
    }

    /// While the buffer is open and no response handle was ever dropped
    /// early, the dispatch log is exactly the consumed prefix of the accepted
    /// messages, in submission order.
    pub open spec fn fifo_shape(self) -> bool {
        (self.open && (forall |id: usize| !(#[trigger] self.canceled@.contains(id))))
            ==> self.dispatched@ =~= Seq::new(self.boundary() as nat, |i: int| i as usize)
    }

    /// Well-formedness: what every operation preserves.
    pub open spec fn wf(self) -> bool {
        let p = self.pending();
        let b = self.boundary();
        &&& self.queue@.len() <= self.bound
        &&& self.next_id == self.accepted@.len()
        &&& b >= 0
        // Unconsumed messages carry consecutive submission indices, oldest
        // first, ending at the accepted count.
        &&& (forall |i: int| #![trigger p[i]] 0 <= i < p.len() ==> p[i].id as int == b + i)
        // Each carries the request it was accepted with.
        &&& (forall |i: int| 0 <= i < p.len() ==> (#[trigger] p[i]).request == self.accepted@[p[i].id as int])
        // A message's flag holds exactly when its handle was dropped.
        &&& (forall |i: int| 0 <= i < p.len() ==> ((#[trigger] p[i]).canceled <==> self.canceled@.contains(p[i].id)))
        // The dispatch log is strictly increasing: dispatch order follows
        // submission order.
        &&& (forall |i: int, j: int| 0 <= i < j < self.dispatched@.len()
                ==> #[trigger] self.dispatched@[i] < #[trigger] self.dispatched@[j])
        // Only consumed messages were dispatched.
        &&& (forall |j: int| #![trigger self.dispatched@[j]] 0 <= j < self.dispatched@.len()
                ==> (self.dispatched@[j] as int) < b)
        // Only consumed messages were skipped.
        &&& (forall |id: usize| #[trigger] self.skipped@.contains(id) ==> (id as int) < b)
        // Every consumed message was dispatched or skipped, never both.
        &&& (forall |id: usize| #![auto] (id as int) < b
                ==> (self.dispatched@.contains(id) <==> !self.skipped@.contains(id)))
        // A message is skipped only for a dropped handle, or because the
        // buffer closed fatally.
        &&& (forall |id: usize| #[trigger] self.skipped@.contains(id)
                ==> self.canceled@.contains(id) || !self.open)
        // Cancellation concerns accepted messages only.
        &&& (forall |id: usize| #[trigger] self.canceled@.contains(id) ==> id < self.next_id)
        &&& self.fifo_shape()
        // Finishing means no handle and nothing unconsumed.
        &&& (self.worker.finish ==> self.handles == 0 && p.len() == 0)
    }

    /// Creates a buffer with the given queue capacity, one front-end handle,
    /// an open flag, and an idle worker.
    pub fn new(bound: usize) -> (r: Buffer<R>)
        ensures
            r.wf(),
            r.bound == bound,
            r.open,
            r.handles == 1,
            r.queue@.len() == 0,
            r.worker.current is None,
            !r.worker.finish,
            !r.worker.done,
            r.next_id == 0,
            r.accepted@ =~= Seq::<R>::empty(),
            r.dispatched@ =~= Seq::<usize>::empty(),
            r.skipped@ =~= Set::<usize>::empty(),
            r.canceled@ =~= Set::<usize>::empty(),
    {
        let r = Buffer {
            bound,
            open: true,
            handles: 1,
            queue: Vec::new(),
            worker: Worker { current: None, finish: false, done: false },
            next_id: 0,
            accepted: Ghost(Seq::empty()),
            dispatched: Ghost(Seq::empty()),
            skipped: Ghost(Set::empty()),
            canceled: Ghost(Set::empty()),
        };
        proof {
            assert(r.dispatched@ =~= Seq::new(r.boundary() as nat, |i: int| i as usize));
        }
        r
    }

    /// The front end's non-blocking readiness check: closed-error once the
    /// flag is down or the worker is gone, backpressure while the queue is at
    /// capacity, ready otherwise. It never suspends and changes nothing.
    pub fn poll_ready(&self) -> (r: Readiness)
        requires
            self.wf(),
        ensures
            (!self.open || self.worker.done ==> r is Closed),
            (self.open && !self.worker.done && self.queue@.len() >= self.bound ==> r is Full),
            (self.open && !self.worker.done && self.queue@.len() < self.bound ==> r is Ready),
    {
        if !self.open || self.worker.done {
            Readiness::Closed
        } else if self.queue.len() >= self.bound {
            Readiness::Full
        } else {
            Readiness::Ready
        }
    }

    /// Submits one request through a front-end handle. On a closed buffer
    /// nothing is enqueued and the caller's response handle resolves to the
    /// closed-error at once; on a full queue nothing is enqueued and the
    /// caller must back off; otherwise the request is accepted under the next
    /// submission index. It never suspends and never panics.
    pub fn submit(&mut self, request: R) -> (r: Submit)
        requires
            old(self).wf(),
            old(self).handles >= 1,
            old(self).next_id < usize::MAX,
        ensures
            final(self).wf(),
            (final(self).open ==> old(self).open),
            final(self).bound == old(self).bound,
            final(self).handles == old(self).handles,
            final(self).worker == old(self).worker,
            final(self).dispatched@ == old(self).dispatched@,
            final(self).skipped@ == old(self).skipped@,
            final(self).canceled@ == old(self).canceled@,
            ((!old(self).open || old(self).worker.done) ==> r is Closed
                && !final(self).open
                && final(self).queue@ == old(self).queue@
                && final(self).next_id == old(self).next_id
                && final(self).accepted@ == old(self).accepted@),
            (old(self).open && !old(self).worker.done
                && old(self).queue@.len() >= old(self).bound ==> r is Full
                && final(self).open
                && final(self).queue@ == old(self).queue@
                && final(self).next_id == old(self).next_id
                && final(self).accepted@ == old(self).accepted@),
            (old(self).open && !old(self).worker.done
                && old(self).queue@.len() < old(self).bound ==>
                r == Submit::Accepted(old(self).next_id)
                && final(self).open
                && final(self).next_id == old(self).next_id + 1
                && final(self).queue@ =~= old(self).queue@.push(
                    (Msg { id: old(self).next_id, canceled: false, request }),
                )
                && final(self).accepted@ =~= old(self).accepted@.push(request)),
    {
        if !self.open || self.worker.done {
            // The enqueue would fail: the worker's side of the queue is gone.
            // The first handle to observe this flips the shared flag for all.
            self.open = false;
            return Submit::Closed;
        }
        if self.queue.len() >= self.bound {
            return Submit::Full;
        }
        let id: usize = self.next_id;
        let msg = Msg { id, canceled: false, request };
        proof {
            // The handle requirement rules out a finishing worker, so the
            // queue may grow.
            assert(!self.worker.finish);
        }
        self.queue.push(msg);
        self.next_id = id + 1;
        self.accepted = Ghost(self.accepted@.push(request));
        proof {
            let p_old = old(self).pending();
            let p_new = self.pending();
            assert(p_new =~= p_old.push(
                Msg { id: old(self).next_id, canceled: false, request },
            ));
            assert(self.boundary() == old(self).boundary());
            assert(forall |i: int| 0 <= i < p_old.len() ==> p_new[i] == p_old[i]);
            assert(!old(self).canceled@.contains(old(self).next_id));
            lemma_fifo_shape_carries(*old(self), *self);
        }
        Submit::Accepted(id)
    }

    /// Records that the response handle for submission index `id` was
    /// dropped: the sole cancellation signal. The message, wherever it still
    /// waits, is flagged; the worker observes the flag lazily, when it next
    /// examines the message. Everything else is untouched.
    pub fn cancel(&mut self, id: usize)
        requires
            old(self).wf(),
            id < old(self).next_id,
        ensures
            final(self).wf(),
            final(self).canceled@ == old(self).canceled@.insert(id),
            final(self).open == old(self).open,
            final(self).bound == old(self).bound,
            final(self).handles == old(self).handles,
            final(self).next_id == old(self).next_id,
            final(self).accepted@ == old(self).accepted@,
            final(self).dispatched@ == old(self).dispatched@,
            final(self).skipped@ == old(self).skipped@,
            final(self).worker.finish == old(self).worker.finish,
            final(self).worker.done == old(self).worker.done,
            final(self).pending().len() == old(self).pending().len(),
            (forall |i: int| 0 <= i < old(self).pending().len()
                ==> #[trigger] final(self).pending()[i] == with_cancel(old(self).pending()[i], id)),
    {
        self.canceled = Ghost(self.canceled@.insert(id));
        let cur = self.worker.current.take();
        match cur {
            Some(m) => {
                if m.id == id {
                    self.worker.current = Some(Msg { id: m.id, canceled: true, request: m.request });
                } else {
                    self.worker.current = Some(m);
                }
            }
            None => {
                self.worker.current = None;
            }
        }
        let ghost q_mid = self.queue@;
        let ghost w_mid = self.worker;
        let mut i: usize = 0;
        while i < self.queue.len()
            invariant
                self.queue@.len() == q_mid.len(),
                i <= self.queue@.len(),
                (forall |j: int| 0 <= j < i ==> #[trigger] self.queue@[j] == with_cancel(q_mid[j], id)),
                (forall |j: int| i <= j < q_mid.len() ==> #[trigger] self.queue@[j] == q_mid[j]),
                self.worker == w_mid,
                self.open == old(self).open,
                self.bound == old(self).bound,
                self.handles == old(self).handles,
                self.next_id == old(self).next_id,
                self.accepted@ == old(self).accepted@,
                self.dispatched@ == old(self).dispatched@,
                self.skipped@ == old(self).skipped@,
                self.canceled@ == old(self).canceled@.insert(id),
            decreases self.queue@.len() - i,
        {
            if self.queue[i].id == id {
                let mut m = self.queue.remove(i);
                m.canceled = true;
                let ghost q_before = self.queue@;
                self.queue.insert(i, m);
                proof {
                    assert(self.queue@ =~= q_before.insert(i as int, m));
                }
            }
            i = i + 1;
        }
        proof {
            let p_old = old(self).pending();
            let p_new = self.pending();
            assert(q_mid == old(self).queue@);
            assert(p_new.len() == p_old.len());
            assert forall |i2: int| 0 <= i2 < p_old.len()
                implies #[trigger] p_new[i2] == with_cancel(p_old[i2], id) by {
                if old(self).worker.current is Some {
                    let m = old(self).worker.current.unwrap();
                    let m2 = self.worker.current.unwrap();
                    assert(m2 == with_cancel(m, id));
                    assert(p_old == seq![m] + old(self).queue@);
                    assert(p_new == seq![m2] + self.queue@);
                    if i2 == 0 {
                        assert(p_new[0] == m2 && p_old[0] == m);
                    } else {
                        assert(p_new[i2] == self.queue@[i2 - 1]);
                        assert(p_old[i2] == old(self).queue@[i2 - 1]);
                        assert(self.queue@[i2 - 1] == with_cancel(q_mid[i2 - 1], id));
                    }
                } else {
                    assert(p_new[i2] == self.queue@[i2]);
                    assert(p_old[i2] == old(self).queue@[i2]);
                    assert(self.queue@[i2] == with_cancel(q_mid[i2], id));
                }
            }
            assert(self.boundary() == old(self).boundary());
            assert(self.canceled@.contains(id));
            assert(self.fifo_shape()) by {
                if self.open && (forall |id2: usize| !(#[trigger] self.canceled@.contains(id2))) {
                    assert(!self.canceled@.contains(id));
                }
            }
        }
    }

    /// Duplicates a front-end handle. The clone shares the queue and the
    /// open/closed flag, so every clone observes closure together; nothing
    /// else changes.
    pub fn clone_handle(&mut self)
        requires
            old(self).wf(),
            old(self).handles >= 1,
            old(self).handles < usize::MAX,
        ensures
            final(self).wf(),
            final(self).handles == old(self).handles + 1,
            final(self).open == old(self).open,
            final(self).bound == old(self).bound,
            final(self).queue@ == old(self).queue@,
            final(self).worker == old(self).worker,
            final(self).next_id == old(self).next_id,
            final(self).accepted@ == old(self).accepted@,
            final(self).dispatched@ == old(self).dispatched@,
            final(self).skipped@ == old(self).skipped@,
            final(self).canceled@ == old(self).canceled@,
    {
        self.handles = self.handles + 1;
        proof {
            assert(self.pending() == old(self).pending());
            lemma_fifo_shape_carries(*old(self), *self);
        }
    }

    /// Drops one front-end handle. Once every handle is gone and the queue is
    /// drained, the worker finishes; nothing else changes.
    pub fn drop_handle(&mut self)
        requires
            old(self).wf(),
            old(self).handles >= 1,
        ensures
            final(self).wf(),
            final(self).handles == old(self).handles - 1,
            final(self).open == old(self).open,
            final(self).bound == old(self).bound,
            final(self).queue@ == old(self).queue@,
            final(self).worker == old(self).worker,
            final(self).next_id == old(self).next_id,
            final(self).accepted@ == old(self).accepted@,
            final(self).dispatched@ == old(self).dispatched@,
            final(self).skipped@ == old(self).skipped@,
            final(self).canceled@ == old(self).canceled@,
    {
        self.handles = self.handles - 1;
        proof {
            assert(self.pending() == old(self).pending());
            lemma_fifo_shape_carries(*old(self), *self);
        }
    }

    /// The worker's message acquisition: re-examine the parked message first,
    /// then pull from the queue, discarding every message whose handle was
    /// already dropped, until a live one is in the slot (`Msg`), the queue is
    /// momentarily empty (`Pending`), or no message can ever arrive again
    /// because every handle is gone (`Finished`). Discarding is the only
    /// point where cancellation is observed, and a discarded message is never
    /// dispatched.
    pub fn worker_next_msg(&mut self) -> (r: NextMsg)
        requires
            old(self).wf(),
            !old(self).worker.done,
        ensures
            final(self).wf(),
            !final(self).worker.done,
            final(self).open == old(self).open,
            final(self).bound == old(self).bound,
            final(self).handles == old(self).handles,
            final(self).next_id == old(self).next_id,
            final(self).accepted@ == old(self).accepted@,
            final(self).dispatched@ == old(self).dispatched@,
            final(self).canceled@ == old(self).canceled@,
            final(self).pending().len() <= old(self).pending().len(),
            (r is Msg ==> final(self).worker.current is Some
                && !final(self).worker.current.unwrap().canceled
                && !final(self).worker.finish),
            (r is Pending ==> final(self).pending().len() == 0
                && !final(self).worker.finish
                && final(self).handles != 0),
            (r is Finished ==> final(self).worker.finish
                && final(self).pending().len() == 0),
            (old(self).worker.finish ==> r is Finished
                && final(self).worker == old(self).worker
                && final(self).queue@ == old(self).queue@
                && final(self).skipped@ == old(self).skipped@),
            (!old(self).worker.finish ==> (forall |id2: usize| #![auto]
                final(self).skipped@.contains(id2) <==> (old(self).skipped@.contains(id2)
                    || (old(self).boundary() <= id2 as int
                        && (id2 as int) < old(self).boundary()
                            + first_live(old(self).pending()))))),
            (!old(self).worker.finish
                && first_live(old(self).pending()) < old(self).pending().len() ==>
                r is Msg
                && final(self).worker.current == Some(
                    old(self).pending()[first_live(old(self).pending())],
                )
                && !final(self).worker.current.unwrap().canceled
                && final(self).pending() == old(self).pending().skip(
                    first_live(old(self).pending()),
                )
                && !final(self).worker.finish),
            (!old(self).worker.finish
                && first_live(old(self).pending()) == old(self).pending().len() ==>
                final(self).pending().len() == 0
                && final(self).worker.current is None
                && (old(self).handles == 0 ==> r is Finished && final(self).worker.finish)
                && (old(self).handles != 0 ==> r is Pending && !final(self).worker.finish)),
    {
        if self.worker.finish {
            return NextMsg::Finished;
        }
        proof {
            lemma_first_live(old(self).pending());
            assert(old(self).pending().skip(0) =~= old(self).pending());
        }
        loop
            invariant
                self.wf(),
                !self.worker.done,
                !self.worker.finish,
                !old(self).worker.finish,
                old(self).wf(),
                self.open == old(self).open,
                self.bound == old(self).bound,
                self.handles == old(self).handles,
                self.next_id == old(self).next_id,
                self.accepted@ == old(self).accepted@,
                self.dispatched@ == old(self).dispatched@,
                self.canceled@ == old(self).canceled@,
                old(self).boundary() <= self.boundary(),
                self.boundary() - old(self).boundary() <= first_live(old(self).pending()),
                self.pending() == old(self).pending().skip(
                    self.boundary() - old(self).boundary(),
                ),
                (forall |id2: usize| #![auto] self.skipped@.contains(id2) <==>
                    (old(self).skipped@.contains(id2)
                        || (old(self).boundary() <= id2 as int
                            && (id2 as int) < self.boundary()))),
            decreases self.pending().len(),
        {
            let ghost pre = *self;
            let ghost jj = pre.boundary() - old(self).boundary();
            let m_opt = if self.worker.current.is_some() {
                self.worker.current.take()
            } else if self.queue.len() > 0 {
                Some(self.queue.remove(0))
            } else {
                None
            };
            match m_opt {
                Some(m) => {
                    proof {
                        assert(m == pre.pending()[0]);
                        assert(pre.pending()[0] == old(self).pending()[jj]);
                        lemma_first_live(old(self).pending());
                    }
                    if !m.canceled {
                        self.worker.current = Some(m);
                        proof {
                            assert(self.pending() =~= pre.pending());
                            if jj < first_live(old(self).pending()) {
                                assert(old(self).pending()[jj].canceled);
                            }
                            assert(jj == first_live(old(self).pending()));
                            lemma_fifo_shape_carries(pre, *self);
                        }
                        return NextMsg::Msg;
                    }
                    proof {
                        // The discarded message was canceled when examined.
                        assert(pre.canceled@.contains(m.id));
                        assert(m.id as int == pre.boundary());
                        assert(jj < first_live(old(self).pending()));
                    }
                    self.skipped = Ghost(self.skipped@.insert(m.id));
                    proof {
                        assert(self.pending() =~= pre.pending().skip(1));
                        assert forall |i: int| 0 <= i < self.pending().len()
                            implies #[trigger] self.pending()[i]
                                == old(self).pending()[jj + 1 + i] by {
                            assert(self.pending()[i] == pre.pending()[i + 1]);
                            assert(pre.pending()[i + 1]
                                == old(self).pending().skip(jj)[i + 1]);
                        }
                        assert(self.pending() =~= old(self).pending().skip(jj + 1));
                        assert(self.boundary() == pre.boundary() + 1);
                        assert(!pre.dispatched@.contains(m.id));
                        assert(self.fifo_shape()) by {
                            if self.open && (forall |id2: usize|
                                !(#[trigger] self.canceled@.contains(id2))) {
                                assert(!self.canceled@.contains(m.id));
                            }
                        }
                        assert(self.wf());
                    }
                }
                None => {
                    proof {
                        lemma_first_live(old(self).pending());
                        assert(pre.pending().len() == 0);
                        assert(jj == first_live(old(self).pending()));
                    }
                    if self.handles == 0 {
                        self.worker.finish = true;
                        proof {
                            lemma_fifo_shape_carries(pre, *self);
                        }
                        return NextMsg::Finished;
                    }
                    return NextMsg::Pending;
                }
            }
        }
    }

    /// One dispatch attempt for the message in the worker's slot, decided by
    /// the wrapped service's readiness. `Ready`: the message is consumed, its
    /// request is handed out for exactly one service call, and the dispatch
    /// is logged. `Pending`: the message stays parked and nothing changes.
    /// `Failed`: the buffer closes for every handle, the worker terminates,
    /// and the in-hand message is abandoned undispatched.
    pub fn worker_dispatch(&mut self, ready: ServicePoll) -> (r: Dispatch<R>)
        requires
            old(self).wf(),
            !old(self).worker.done,
            old(self).worker.current is Some,
        ensures
            final(self).wf(),
            (final(self).open ==> old(self).open),
            final(self).bound == old(self).bound,
            final(self).handles == old(self).handles,
            final(self).next_id == old(self).next_id,
            final(self).accepted@ == old(self).accepted@,
            final(self).canceled@ == old(self).canceled@,
            final(self).queue@ == old(self).queue@,
            final(self).worker.finish == old(self).worker.finish,
            (ready is Ready ==>
                r == Dispatch::Dispatched(old(self).worker.current.unwrap().request)
                && final(self).dispatched@ == old(self).dispatched@.push(
                    old(self).worker.current.unwrap().id,
                )
                && final(self).skipped@ == old(self).skipped@
                && final(self).worker.current is None
                && final(self).open == old(self).open
                && !final(self).worker.done),
            (ready is Pending ==> r is Parked
                && final(self).worker == old(self).worker
                && final(self).open == old(self).open
                && final(self).dispatched@ == old(self).dispatched@
                && final(self).skipped@ == old(self).skipped@
                && !final(self).worker.done),
            (ready is Failed ==> r is Fatal
                && !final(self).open
                && final(self).worker.done
                && final(self).worker.current is None
                && final(self).dispatched@ == old(self).dispatched@
                && final(self).skipped@ == old(self).skipped@.insert(
                    old(self).worker.current.unwrap().id,
                )),
    {
        match ready {
            ServicePoll::Ready => {
                let cur = self.worker.current.take();
                match cur {
                    Some(m) => {
                        self.dispatched = Ghost(self.dispatched@.push(m.id));
                        proof {
                            assert(m == old(self).pending()[0]);
                            assert(self.pending() == self.queue@);
                            assert forall |i: int| 0 <= i < self.pending().len()
                                implies #[trigger] self.pending()[i]
                                    == old(self).pending()[i + 1] by {
                                assert(old(self).pending()[i + 1] == old(self).queue@[i]);
                            }
                            assert(self.boundary() == old(self).boundary() + 1);
                            assert(!old(self).skipped@.contains(m.id));
                            assert(forall |j: int| 0 <= j < old(self).dispatched@.len()
                                ==> (#[trigger] old(self).dispatched@[j]) < m.id);
                            assert(self.dispatched@.last() == m.id);
                            assert forall |id2: usize| (id2 as int) < self.boundary()
                                implies (self.dispatched@.contains(id2)
                                    <==> !self.skipped@.contains(id2)) by {
                                vstd::seq_lib::lemma_seq_contains_after_push(
                                    old(self).dispatched@, m.id, id2,
                                );
                            }
                            assert(self.fifo_shape()) by {
                                if self.open && (forall |id2: usize|
                                    !(#[trigger] self.canceled@.contains(id2))) {
                                    assert forall |id2: usize|
                                        !(#[trigger] old(self).canceled@.contains(id2)) by {
                                        assert(!self.canceled@.contains(id2));
                                    }
                                    assert(old(self).dispatched@ =~= Seq::new(
                                        old(self).boundary() as nat,
                                        |i: int| i as usize,
                                    ));
                                    assert(self.dispatched@ =~= Seq::new(
                                        self.boundary() as nat,
                                        |i: int| i as usize,
                                    ));
                                }
                            }
                            assert(self.wf());
                        }
                        Dispatch::Dispatched(m.request)
                    }
                    None => {
                        proof {
                            assert(false);
                        }
                        Dispatch::Parked
                    }
                }
            }
            ServicePoll::Pending => Dispatch::Parked,
            ServicePoll::Failed => {
                self.open = false;
                self.worker.done = true;
                let cur = self.worker.current.take();
                match cur {
                    Some(m) => {
                        self.skipped = Ghost(self.skipped@.insert(m.id));
                        proof {
                            assert(m == old(self).pending()[0]);
                            assert(self.pending() == self.queue@);
                            assert forall |i: int| 0 <= i < self.pending().len()
                                implies #[trigger] self.pending()[i]
                                    == old(self).pending()[i + 1] by {
                                assert(old(self).pending()[i + 1] == old(self).queue@[i]);
                            }
                            assert(self.boundary() == old(self).boundary() + 1);
                            assert(!old(self).dispatched@.contains(m.id));
                            assert(self.wf());
                        }
                    }
                    None => {
                        proof {
                            assert(false);
                        }
                    }
                }
                Dispatch::Fatal
            }
        }
    }

    /// The worker's poll: one scheduling slice of the dedicated task that
    /// owns the wrapped service. Accepting new work and advancing
    /// already-accepted work are interleaved in the same pass: live messages
    /// are dispatched while the service is ready, canceled ones are
    /// discarded, a message the service cannot yet accept is parked and
    /// outstanding work is advanced instead, and once no message can ever
    /// arrive again the service's shutdown is driven. Returns `Yielded` when
    /// there is nothing to do until woken, `Finished` on clean termination,
    /// and `Failed` when the service failed; a readiness failure also closes
    /// the buffer for every handle.
    pub fn worker_poll<S: DirectService<R>>(&mut self, service: &mut S) -> (r: WorkerPoll)
        requires
            old(self).wf(),
            !old(self).worker.done,
        ensures
            final(self).wf(),
            (final(self).open ==> old(self).open),
            final(self).bound == old(self).bound,
            final(self).handles == old(self).handles,
            final(self).next_id == old(self).next_id,
            final(self).accepted@ == old(self).accepted@,
            final(self).canceled@ == old(self).canceled@,
            old(self).dispatched@.is_prefix_of(final(self).dispatched@),
            old(self).skipped@.subset_of(final(self).skipped@),
            final(self).worker.done == (r is Finished || r is Failed),
            (r is Finished ==> final(self).worker.finish
                && final(self).open == old(self).open),
    {
        let mut any_outstanding: bool = true;
        loop
            invariant
                self.wf(),
                !self.worker.done,
                self.open == old(self).open,
                self.bound == old(self).bound,
                self.handles == old(self).handles,
                self.next_id == old(self).next_id,
                self.accepted@ == old(self).accepted@,
                self.canceled@ == old(self).canceled@,
                old(self).dispatched@.is_prefix_of(self.dispatched@),
                old(self).skipped@.subset_of(self.skipped@),
            decreases self.pending().len(), (if any_outstanding { 1int } else { 0int }),
        {
            let ghost pre = *self;
            match self.worker_next_msg() {
                NextMsg::Msg => {
                    let ready = service.poll_ready();
                    match self.worker_dispatch(ready) {
                        Dispatch::Dispatched(request) => {
                            // Deliver the request; the result future travels
                            // back through the message's one-shot bridge (a
                            // delivery a canceled caller simply never reads).
                            service.call(request);
                            any_outstanding = true;
                            proof {
                                let a = old(self).dispatched@;
                                let c = self.dispatched@;
                                assert(a =~= c.subrange(0, a.len() as int)) by {
                                    assert(a =~= pre.dispatched@.subrange(0, a.len() as int));
                                    assert forall |i: int| 0 <= i < a.len()
                                        implies a[i] == c[i] by {
                                        assert(a[i]
                                            == pre.dispatched@.subrange(0, a.len() as int)[i]);
                                        assert(c[i] == pre.dispatched@[i]);
                                    }
                                }
                                assert(a.is_prefix_of(c));
                            }
                            // Try to queue another request before polling
                            // outstanding work.
                        }
                        Dispatch::Parked => {
                            // The service cannot accept the message yet; let
                            // outstanding work progress before yielding.
                            match service.poll_outstanding() {
                                ServicePoll::Failed => {
                                    let ghost before = *self;
                                    self.worker.done = true;
                                    proof {
                                        assert(self.pending() == before.pending());
                                        lemma_fifo_shape_carries(before, *self);
                                    }
                                    return WorkerPoll::Failed;
                                }
                                _ => {
                                    return WorkerPoll::Yielded;
                                }
                            }
                        }
                        Dispatch::Fatal => {
                            return WorkerPoll::Failed;
                        }
                    }
                }
                NextMsg::Finished => {
                    // No more messages ever: drive the service's shutdown.
                    match service.poll_close() {
                        ServicePoll::Ready => {
                            let ghost before = *self;
                            self.worker.done = true;
                            proof {
                                assert(self.pending() == before.pending());
                                lemma_fifo_shape_carries(before, *self);
                            }
                            return WorkerPoll::Finished;
                        }
                        ServicePoll::Pending => {
                            return WorkerPoll::Yielded;
                        }
                        ServicePoll::Failed => {
                            // Closing failed; terminate anyway, unretried.
                            let ghost before = *self;
                            self.worker.done = true;
                            proof {
                                assert(self.pending() == before.pending());
                                lemma_fifo_shape_carries(before, *self);
                            }
                            return WorkerPoll::Failed;
                        }
                    }
                }
                NextMsg::Pending => {
                    if any_outstanding {
                        // Make some progress on the service if we can.
                        match service.poll_outstanding() {
                            ServicePoll::Failed => {
                                let ghost before = *self;
                                self.worker.done = true;
                                proof {
                                    assert(self.pending() == before.pending());
                                    lemma_fifo_shape_carries(before, *self);
                                }
                                return WorkerPoll::Failed;
                            }
                            ServicePoll::Ready => {
                                // Nothing left outstanding: note it, so the
                                // next pass skips this step and yields.
                                any_outstanding = false;
                            }
                            ServicePoll::Pending => {
                                return WorkerPoll::Yielded;
                            }
                        }
                    } else {
                        // No new requests and no outstanding work: yield.
                        return WorkerPoll::Yielded;
                    }
                }
            }
        }
    }

    /// Law (backpressure bound): the queue never holds more undelivered
    /// messages than the capacity fixed at construction; together with
    /// `submit`'s contract, the attempt beyond capacity is rejected at the
    /// producer side, never silently buffered.
    pub proof fn lemma_backpressure(self)
        requires
            self.wf(),
        ensures
            self.queue@.len() <= self.bound,
    {
    }

    /// Law (dispatch order): the dispatch log is strictly increasing in
    /// submission indices: of any two dispatched messages, the one accepted
    /// earlier was handed to the service earlier.
    pub proof fn lemma_fifo_order(self, i: int, j: int)
        requires
            self.wf(),
            0 <= i < j < self.dispatched@.len(),
        ensures
            self.dispatched@[i] < self.dispatched@[j],
    {
    }

    /// Law (at-most-once dispatch): no submission index appears twice in the
    /// dispatch log: an accepted message's request is handed to the service
    /// at most once.
    pub proof fn lemma_exactly_once(self, i: int, j: int)
        requires
            self.wf(),
            0 <= i < self.dispatched@.len(),
            0 <= j < self.dispatched@.len(),
            i != j,
        ensures
            self.dispatched@[i] != self.dispatched@[j],
    {
        if i < j {
            self.lemma_fifo_order(i, j);
        } else {
            self.lemma_fifo_order(j, i);
        }
    }

    /// Law (dispatch owed): every message the worker consumed without
    /// skipping it was dispatched; with `lemma_exactly_once`, exactly once.
    pub proof fn lemma_dispatch_complete(self, id: usize)
        requires
            self.wf(),
            (id as int) < self.boundary(),
            !self.skipped@.contains(id),
        ensures
            self.dispatched@.contains(id),
    {
    }

    /// Law (cancellation safety): a message the worker discarded as canceled
    /// when it examined it (or abandoned on a fatal failure) is never
    /// dispatched: the service's call is never invoked for it.
    pub proof fn lemma_cancellation_safety(self, id: usize)
        requires
            self.wf(),
            self.skipped@.contains(id),
        ensures
            !self.dispatched@.contains(id),
    {
    }

    /// Law (complete FIFO dispatch): while the buffer is open and no
    /// response handle was ever dropped early, the requests handed to the
    /// service are exactly the consumed prefix of the accepted requests, in
    /// submission order.
    pub proof fn lemma_fifo_dispatch(self)
        requires
            self.wf(),
            self.open,
            (forall |id: usize| !(#[trigger] self.canceled@.contains(id))),
        ensures
            self.dispatched@.len() == self.boundary(),
            (forall |i: int| #![trigger self.dispatched@[i]] 0 <= i < self.dispatched@.len()
                ==> self.dispatched@[i] as int == i
                    && self.accepted@[self.dispatched@[i] as int] == self.accepted@[i]),
    {
        assert(self.dispatched@ == Seq::new(self.boundary() as nat, |i: int| i as usize));
    }
}

} // verus!
