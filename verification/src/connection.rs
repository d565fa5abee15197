//! Per-connection state machine for the echo protocol.
//!
//! A connection owns an ordered pending-write queue and a terminal `closed`
//! flag. The event loop performs the socket calls; each call's outcome comes
//! back as a [`WriteOutcome`], and the methods here decide what is queued,
//! re-queued or dropped. Write policy: a message that could not be sent in
//! full keeps its unsent suffix — appended at the back of the queue for a
//! fresh echo, put back at the front when flushing the queue — so queued
//! bytes leave the socket strictly in first-in, first-out order.

use vstd::prelude::*;
use vstd::seq_lib::lemma_flatten_concat;
use std::collections::VecDeque;

verus! {

/// Outcome of one non-blocking socket write attempt, as the event loop saw it.
pub enum WriteOutcome {
    /// The call succeeded and wrote this many bytes, possibly fewer than asked.
    Written(usize),
    /// The call could not make progress now; try again on the next event.
    WouldBlock,
    /// The call was interrupted before transferring anything.
    Interrupted,
    /// Any other error: fatal to this connection only.
    Fatal,
}

/// The bytes a write attempt actually put on the wire: the prefix of `msg`
/// the outcome accounts for, and nothing on a failed attempt.
pub open spec fn sent_now(msg: Seq<u8>, outcome: WriteOutcome) -> Seq<u8> {
    match outcome {
        WriteOutcome::Written(n) => if n <= msg.len() {
            msg.take(n as int)
        } else {
            msg
        },
        _ => Seq::<u8>::empty(),
    }
}

/// The unsent suffix of an echo attempt: what must be kept for later delivery.
/// A fatal outcome closes the connection, so nothing is kept.
pub open spec fn echo_remainder(payload: Seq<u8>, outcome: WriteOutcome) -> Seq<u8> {
    match outcome {
        WriteOutcome::Written(n) => if n <= payload.len() {
            payload.skip(n as int)
        } else {
            Seq::<u8>::empty()
        },
        WriteOutcome::WouldBlock => payload,
        WriteOutcome::Interrupted => payload,
        WriteOutcome::Fatal => Seq::<u8>::empty(),
    }
}

/// Effect on the pending-write queue of absorbing one readable burst: the
/// payload is echoed at once as far as the outcome allows, and any unsent
/// remainder is appended at the back of the queue.
pub open spec fn echo_step(q: Seq<Seq<u8>>, payload: Seq<u8>, outcome: WriteOutcome) -> Seq<
    Seq<u8>,
> {
    if outcome is Fatal {
        q
    } else {
        let r = echo_remainder(payload, outcome);
        if r.len() == 0 {
            q
        } else {
            q.push(r)
        }
    }
}

/// Effect of one write-ready event on a pending-write queue: pop the front
/// message and attempt it. A full write drops it; a partial write keeps the
/// unsent suffix at the front; "would block" and interruption put the whole
/// message back at the front; a fatal outcome loses the message and the
/// connection with it. Returns the bytes sent and the queue afterwards.
pub open spec fn flush_step(q: Seq<Seq<u8>>, outcome: WriteOutcome) -> (Seq<u8>, Seq<Seq<u8>>) {
    if q.len() == 0 {
        (Seq::<u8>::empty(), q)
    } else {
        let msg = q.first();
        let rest = q.drop_first();
        match outcome {
            WriteOutcome::Written(n) => if n >= msg.len() {
                (msg, rest)
            } else {
                (msg.take(n as int), seq![msg.skip(n as int)] + rest)
            },
            WriteOutcome::WouldBlock => (Seq::<u8>::empty(), q),
            WriteOutcome::Interrupted => (Seq::<u8>::empty(), q),
            WriteOutcome::Fatal => (Seq::<u8>::empty(), rest),
        }
    }
}

/// A run of write-ready events: fold [`flush_step`] over the outcomes,
/// accumulating the bytes sent.
pub open spec fn flush_run(q: Seq<Seq<u8>>, outs: Seq<WriteOutcome>) -> (Seq<u8>, Seq<Seq<u8>>)
    decreases outs.len(),
{
    if outs.len() == 0 {
        (Seq::<u8>::empty(), q)
    } else {
        let first = flush_step(q, outs.first());
        let rest = flush_run(first.1, outs.drop_first());
        (first.0 + rest.0, rest.1)
    }
}

/// A connection is fresh for `id`: it carries that id, owes no bytes to the
/// peer, and is not closed.
pub open spec fn fresh_conn(c: Connection, id: int) -> bool {
    &&& c.spec_id() == id
    &&& c.queue() == Seq::<Seq<u8>>::empty()
    &&& !c.is_done()
}

/// One live connection: its table id, its pending-write queue (front is the
/// earliest-enqueued message) and the terminal closed flag.
pub struct Connection {
    id: usize,
    write_queue: VecDeque<Vec<u8>>,
    closed: bool,
}

impl Connection {
    /// The id this connection was admitted under.
    pub closed spec fn spec_id(self) -> int {
        self.id as int
    }

    /// The pending-write queue, earliest-enqueued message first.
    pub closed spec fn queue(self) -> Seq<Seq<u8>> {
        self.write_queue@.map_values(|m: Vec<u8>| m@)
    }

    /// Whether end of file or a fatal error has been observed.
    pub closed spec fn is_done(self) -> bool {
        self.closed
    }

    /// A fresh connection for a newly admitted socket.
    pub fn new(id: usize) -> (c: Connection)
        ensures
            fresh_conn(c, id as int),
    {
        let c = Connection { id, write_queue: VecDeque::new(), closed: false };
        proof {
            assert(c.queue() =~= Seq::<Seq<u8>>::empty());
        }
        c
    }

    pub fn id(&self) -> (i: usize)
        ensures
            i as int == self.spec_id(),
    {
        self.id
    }

    pub fn is_closed(&self) -> (b: bool)
        ensures
            b == self.is_done(),
    {
        self.closed
    }

    pub fn queue_len(&self) -> (n: usize)
        ensures
            n as int == self.queue().len(),
    {
        self.write_queue.len()
    }

    /// An owned copy with the same id, queue contents and closed flag, so the
    /// event loop can take a connection out of the table, apply an event and
    /// store it back.
    pub fn duplicate(&self) -> (c: Connection)
        ensures
            c.spec_id() == self.spec_id(),
            c.queue() == self.queue(),
            c.is_done() == self.is_done(),
    {
        let mut q: VecDeque<Vec<u8>> = VecDeque::new();
        let mut i: usize = 0;
        while i < self.write_queue.len()
            invariant
                i <= self.write_queue@.len(),
                q@.len() == i as int,
                forall|j: int| 0 <= j < i as int ==> q@[j]@ == #[trigger] self.write_queue@[j]@,
            decreases self.write_queue@.len() - i,
        {
            let m = tail_from(&self.write_queue[i], 0);
            proof {
                assert(m@ =~= self.write_queue@[i as int]@);
            }
            q.push_back(m);
            i = i + 1;
        }
        let c = Connection { id: self.id, write_queue: q, closed: self.closed };
        proof {
            assert(c.queue() =~= self.queue());
        }
        c
    }

    /// Mark the connection closed: called once end of file is observed on
    /// read, after any final echo attempt.
    pub fn mark_closed(&mut self)
        ensures
            final(self).is_done(),
            final(self).spec_id() == old(self).spec_id(),
            final(self).queue() == old(self).queue(),
    {
        self.closed = true;
    }

    /// Absorb one readable burst: the event loop echoed `payload` at once and
    /// reports the outcome. The unsent remainder, if any, is appended to the
    /// pending-write queue; a fatal outcome closes the connection instead.
    pub fn note_echo(&mut self, payload: &Vec<u8>, outcome: WriteOutcome)
        requires
            payload@.len() > 0,
            outcome matches WriteOutcome::Written(n) ==> n <= payload@.len(),
        ensures
            final(self).spec_id() == old(self).spec_id(),
            final(self).is_done() == (old(self).is_done() || outcome is Fatal),
            final(self).queue() == echo_step(old(self).queue(), payload@, outcome),
    {
        match outcome {
            WriteOutcome::Written(n) => {
                if n < payload.len() {
                    let rest = tail_from(payload, n);
                    self.write_queue.push_back(rest);
                    proof {
                        assert(self.queue() =~= old(self).queue().push(
                            echo_remainder(payload@, outcome),
                        ));
                    }
                }
            },
            WriteOutcome::WouldBlock | WriteOutcome::Interrupted => {
                let whole = tail_from(payload, 0);
                self.write_queue.push_back(whole);
                proof {
                    assert(whole@ =~= payload@);
                    assert(self.queue() =~= old(self).queue().push(payload@));
                }
            },
            WriteOutcome::Fatal => {
                self.closed = true;
            },
        }
    }

    /// Pop the earliest-enqueued pending message for a write attempt.
    pub fn next_write(&mut self) -> (m: Option<Vec<u8>>)
        ensures
            final(self).spec_id() == old(self).spec_id(),
            final(self).is_done() == old(self).is_done(),
            match m {
                Some(v) => old(self).queue().len() > 0 && v@ == old(self).queue()[0]
                    && final(self).queue() == old(self).queue().drop_first(),
                None => old(self).queue().len() == 0 && final(self).queue() == old(self).queue(),
            },
    {
        let r = self.write_queue.pop_front();
        proof {
            if old(self).write_queue@.len() > 0 {
                assert(self.queue() =~= old(self).queue().drop_first());
            } else {
                assert(self.queue() =~= old(self).queue());
            }
        }
        r
    }

    /// Report the outcome of writing a message popped by [`Self::next_write`]:
    /// a partial write puts the unsent suffix back at the front, "would block"
    /// and interruption put the whole message back at the front, a fatal
    /// outcome closes the connection. The queue afterwards is exactly what one
    /// [`flush_step`] of the popped queue yields.
    pub fn note_flush(&mut self, msg: &Vec<u8>, outcome: WriteOutcome)
        requires
            outcome matches WriteOutcome::Written(n) ==> n <= msg@.len(),
        ensures
            final(self).spec_id() == old(self).spec_id(),
            final(self).is_done() == (old(self).is_done() || outcome is Fatal),
            final(self).queue() == flush_step(seq![msg@] + old(self).queue(), outcome).1,
    {
        proof {
            assert((seq![msg@] + old(self).queue()).first() == msg@);
            assert((seq![msg@] + old(self).queue()).drop_first() =~= old(self).queue());
        }
        match outcome {
            WriteOutcome::Written(n) => {
                if n < msg.len() {
                    let rest = tail_from(msg, n);
                    self.write_queue.push_front(rest);
                    proof {
                        assert(self.queue() =~= seq![msg@.skip(n as int)] + old(self).queue());
                    }
                }
            },
            WriteOutcome::WouldBlock | WriteOutcome::Interrupted => {
                let whole = tail_from(msg, 0);
                self.write_queue.push_front(whole);
                proof {
                    assert(whole@ =~= msg@);
                    assert(self.queue() =~= seq![msg@] + old(self).queue());
                }
            },
            WriteOutcome::Fatal => {
                self.closed = true;
            },
        }
    }
}

/// Copy of the suffix of `v` that starts at `start`.
fn tail_from(v: &Vec<u8>, start: usize) -> (r: Vec<u8>)
    requires
        start <= v@.len(),
    ensures
        r@ == v@.skip(start as int),
{
    let mut r: Vec<u8> = Vec::new();
    let mut i: usize = start;
    proof {
        assert(r@ =~= v@.subrange(start as int, start as int));
    }
    while i < v.len()
        invariant
            start <= i <= v@.len(),
            r@ == v@.subrange(start as int, i as int),
        decreases v@.len() - i,
    {
        let b = v[i];
        r.push(b);
        i = i + 1;
        proof {
            assert(r@ =~= v@.subrange(start as int, i as int));
        }
    }
    proof {
        assert(r@ =~= v@.skip(start as int));
    }
    r
}

/// Echo conservation: for any non-fatal outcome, the bytes echoed at once and
/// the bytes added to the queue together are exactly the received payload —
/// nothing is lost, duplicated or reordered — and the queue keeps everything
/// it already held, in place.
pub proof fn lemma_echo_conserves(q: Seq<Seq<u8>>, payload: Seq<u8>, outcome: WriteOutcome)
    requires
        !(outcome is Fatal),
        outcome matches WriteOutcome::Written(n) ==> n <= payload.len(),
    ensures
        sent_now(payload, outcome) + echo_remainder(payload, outcome) == payload,
        echo_step(q, payload, outcome).flatten() == q.flatten() + echo_remainder(
            payload,
            outcome,
        ),
{
    assert(sent_now(payload, outcome) + echo_remainder(payload, outcome) =~= payload);
    let r = echo_remainder(payload, outcome);
    if r.len() == 0 {
        assert(q.flatten() + r =~= q.flatten());
    } else {
        q.lemma_flatten_push(r);
    }
}

/// One flush step conserves bytes: for any non-fatal outcome, what the step
/// sends plus what stays queued is exactly what was queued before.
pub proof fn lemma_flush_step_conserves(q: Seq<Seq<u8>>, outcome: WriteOutcome)
    requires
        !(outcome is Fatal),
    ensures
        flush_step(q, outcome).0 + flush_step(q, outcome).1.flatten() == q.flatten(),
{
    if q.len() == 0 {
        assert(flush_step(q, outcome).0 + flush_step(q, outcome).1.flatten() =~= q.flatten());
    } else {
        let msg = q.first();
        let rest = q.drop_first();
        assert(q.flatten() == msg + rest.flatten());
        match outcome {
            WriteOutcome::Written(n) => {
                if n >= msg.len() {
                    assert(msg + rest.flatten() == q.flatten());
                } else {
                    lemma_flatten_concat(seq![msg.skip(n as int)], rest);
                    seq![msg.skip(n as int)].lemma_flatten_singleton();
                    assert(msg.take(n as int) + (msg.skip(n as int) + rest.flatten()) =~= q.flatten());
                }
            },
            _ => {
                assert(Seq::<u8>::empty() + q.flatten() =~= q.flatten());
            },
        }
    }
}

/// Queue-ordering law: across any run of write-ready events without a fatal
/// outcome, the bytes sent so far plus the bytes still queued are exactly the
/// bytes that were queued at the start. Messages therefore leave the socket
/// in enqueue order, however many events the flush takes.
pub proof fn lemma_flush_run_fifo(q: Seq<Seq<u8>>, outs: Seq<WriteOutcome>)
    requires
        forall|i: int| 0 <= i < outs.len() ==> !(#[trigger] outs[i] is Fatal),
    ensures
        flush_run(q, outs).0 + flush_run(q, outs).1.flatten() == q.flatten(),
    decreases outs.len(),
{
    if outs.len() == 0 {
        assert(flush_run(q, outs).0 + q.flatten() =~= q.flatten());
    } else {
        let first = flush_step(q, outs.first());
        lemma_flush_step_conserves(q, outs.first());
        lemma_flush_run_fifo(first.1, outs.drop_first());
        assert(first.0 + (flush_run(first.1, outs.drop_first()).0 + flush_run(
            first.1,
            outs.drop_first(),
        ).1.flatten()) =~= flush_run(q, outs).0 + flush_run(q, outs).1.flatten());
    }
}

/// Echo-correctness law for one burst on a connection that owes nothing: the
/// bytes echoed at once, the bytes sent by any fatal-free run of write-ready
/// events, and the bytes still queued after it together reconstruct exactly
/// the bytes received — so once the queue drains, the peer has been sent
/// precisely what it wrote, in order.
pub proof fn lemma_burst_echoed_exactly(
    payload: Seq<u8>,
    outcome: WriteOutcome,
    outs: Seq<WriteOutcome>,
)
    requires
        !(outcome is Fatal),
        outcome matches WriteOutcome::Written(n) ==> n <= payload.len(),
        forall|i: int| 0 <= i < outs.len() ==> !(#[trigger] outs[i] is Fatal),
    ensures
        ({
            let q = echo_step(Seq::<Seq<u8>>::empty(), payload, outcome);
            sent_now(payload, outcome) + flush_run(q, outs).0 + flush_run(q, outs).1.flatten()
                == payload
        }),
{
    let q = echo_step(Seq::<Seq<u8>>::empty(), payload, outcome);
    lemma_echo_conserves(Seq::<Seq<u8>>::empty(), payload, outcome);
    lemma_flush_run_fifo(q, outs);
    assert(Seq::<Seq<u8>>::empty().flatten() =~= Seq::<u8>::empty());
    assert(q.flatten() == echo_remainder(payload, outcome));
    assert(sent_now(payload, outcome) + flush_run(q, outs).0 + flush_run(q, outs).1.flatten()
        =~= payload);
}

/// Corollary of the queue-ordering law: the bytes a fatal-free run has sent
/// are a prefix of the bytes that were queued at the start.
pub proof fn lemma_flush_run_prefix(q: Seq<Seq<u8>>, outs: Seq<WriteOutcome>)
    requires
        forall|i: int| 0 <= i < outs.len() ==> !(#[trigger] outs[i] is Fatal),
    ensures
        flush_run(q, outs).0 == q.flatten().take(flush_run(q, outs).0.len() as int),
{
    lemma_flush_run_fifo(q, outs);
    assert(flush_run(q, outs).0 =~= q.flatten().take(flush_run(q, outs).0.len() as int));
}

} // verus!
