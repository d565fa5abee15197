//! Decisions for one readiness event on a connection.
//!
//! The event loop drains the socket (readable) or attempts one queued write
//! (writable) and reports what happened; these functions carry the outcome
//! into the table. An event for an id with no live connection changes
//! nothing — a stale token is tolerated, never an error. Each function
//! reports whether the connection has finished, so the loop deregisters and
//! removes it exactly once.

use vstd::prelude::*;
use crate::connection::Connection;
use crate::connection::WriteOutcome;
use crate::connection::echo_step;
use crate::connection::flush_step;
use crate::table::ConnTable;

verus! {

/// Absorb one readable burst for the connection under `id`: the event loop
/// drained `payload` and echoed it at once with the given outcome; `closing`
/// reports that the read loop saw end of file or a fatal read error. Returns
/// whether the connection is finished and must be removed.
pub fn on_burst(
    table: &mut ConnTable,
    id: usize,
    payload: &Vec<u8>,
    outcome: WriteOutcome,
    closing: bool,
) -> (done: bool)
    requires
        old(table).wf(),
        outcome matches WriteOutcome::Written(n) ==> n <= payload@.len(),
    ensures
        final(table).wf(),
        final(table).cap() == old(table).cap(),
        !old(table).conns().dom().contains(id as int) ==> final(table).conns() == old(
            table,
        ).conns() && !done,
        old(table).conns().dom().contains(id as int) ==> {
            let c0 = old(table).conns()[id as int];
            let c1 = final(table).conns()[id as int];
            &&& final(table).conns() == old(table).conns().insert(id as int, c1)
            &&& c1.spec_id() == id as int
            &&& c1.queue() == (if payload@.len() > 0 {
                echo_step(c0.queue(), payload@, outcome)
            } else {
                c0.queue()
            })
            &&& c1.is_done() == (c0.is_done() || (payload@.len() > 0 && outcome is Fatal)
                || closing)
            &&& done == c1.is_done()
        },
{
    let mut conn: Connection;
    match table.get(id) {
        Some(c) => {
            conn = c.duplicate();
        },
        None => {
            return false;
        },
    }
    if payload.len() > 0 {
        conn.note_echo(payload, outcome);
    }
    if closing {
        conn.mark_closed();
    }
    let done = conn.is_closed();
    table.update(id, conn);
    done
}

/// A write-ready event: pop the earliest queued message of the connection
/// under `id` for a write attempt. Nothing is popped — and nothing changes —
/// for an unknown id, a finished connection or an empty queue.
pub fn on_writable(table: &mut ConnTable, id: usize) -> (msg: Option<Vec<u8>>)
    requires
        old(table).wf(),
    ensures
        final(table).wf(),
        final(table).cap() == old(table).cap(),
        match msg {
            Some(m) => {
                let c0 = old(table).conns()[id as int];
                let c1 = final(table).conns()[id as int];
                &&& old(table).conns().dom().contains(id as int)
                &&& !c0.is_done()
                &&& c0.queue().len() > 0
                &&& m@ == c0.queue()[0]
                &&& final(table).conns() == old(table).conns().insert(id as int, c1)
                &&& c1.spec_id() == id as int
                &&& c1.queue() == c0.queue().drop_first()
                &&& !c1.is_done()
            },
            None => final(table).conns() == old(table).conns() && (!old(
                table,
            ).conns().dom().contains(id as int) || old(table).conns()[id as int].is_done() || old(
                table,
            ).conns()[id as int].queue().len() == 0),
        },
{
    let mut conn: Connection;
    match table.get(id) {
        Some(c) => {
            conn = c.duplicate();
        },
        None => {
            return None;
        },
    }
    if conn.is_closed() {
        return None;
    }
    match conn.next_write() {
        Some(m) => {
            table.update(id, conn);
            Some(m)
        },
        None => None,
    }
}

/// Report the outcome of writing a message popped by [`on_writable`]: the
/// connection's queue afterwards is one [`flush_step`] of the popped queue —
/// a partial write or "would block" keeps the unsent part at the front, a
/// fatal outcome finishes the connection. Returns whether it must be removed.
pub fn on_write_done(
    table: &mut ConnTable,
    id: usize,
    msg: &Vec<u8>,
    outcome: WriteOutcome,
) -> (done: bool)
    requires
        old(table).wf(),
        outcome matches WriteOutcome::Written(n) ==> n <= msg@.len(),
    ensures
        final(table).wf(),
        final(table).cap() == old(table).cap(),
        !old(table).conns().dom().contains(id as int) ==> final(table).conns() == old(
            table,
        ).conns() && !done,
        old(table).conns().dom().contains(id as int) ==> {
            let c0 = old(table).conns()[id as int];
            let c1 = final(table).conns()[id as int];
            &&& final(table).conns() == old(table).conns().insert(id as int, c1)
            &&& c1.spec_id() == id as int
            &&& c1.queue() == flush_step(seq![msg@] + c0.queue(), outcome).1
            &&& c1.is_done() == (c0.is_done() || outcome is Fatal)
            &&& done == c1.is_done()
        },
{
    let mut conn: Connection;
    match table.get(id) {
        Some(c) => {
            conn = c.duplicate();
        },
        None => {
            return false;
        },
    }
    conn.note_flush(msg, outcome);
    let done = conn.is_closed();
    table.update(id, conn);
    done
}

} // verus!
