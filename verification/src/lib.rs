//! Verified core of a readiness-driven TCP echo server.
//!
//! The library holds the parts of the server that make decisions: the
//! per-connection state machine (a growable read-burst buffer and a FIFO
//! pending-write queue) and a bounded connection table with id reuse. The
//! event loop around it performs the socket calls and feeds their outcomes
//! back in as plain values.
//!
//! The protocol is binary-transparent: whatever bytes arrive in one readable
//! burst are echoed back unmodified, as one unit, with no framing and no
//! text-encoding check.

pub mod burst;
pub mod connection;
pub mod events;
pub mod table;

use vstd::prelude::*;

verus! {

/// Upper bound on concurrently live connections the table will accept.
pub const MAX_CONNECTIONS: usize = 1000;

} // verus!
