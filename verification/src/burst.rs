//! Buffering for one readable burst.
//!
//! On a read-ready event the event loop reads repeatedly into `buf` starting
//! at `filled`, reporting each successful read with [`ReadBurst::record_read`],
//! until the socket would block or reports end of file. The buffer grows
//! whenever a read fills it completely, so a burst of any size is drained
//! with a non-empty window always available for the next read.

use vstd::prelude::*;

verus! {

/// Initial size of the scratch buffer for one readable burst.
pub const READ_BUFFER_INIT: usize = 4096;

/// How much the scratch buffer grows each time a read fills it.
pub const READ_BUFFER_STEP: usize = 1024;

/// The bytes received so far during one readable burst.
pub struct ReadBurst {
    /// Scratch space the event loop reads into, at offset `filled`.
    pub buf: Vec<u8>,
    /// How many bytes at the front of `buf` hold received data.
    pub filled: usize,
}

impl ReadBurst {
    /// Room remains past `filled`, so the next read has a non-empty window.
    pub open spec fn wf(self) -> bool {
        self.filled < self.buf@.len()
    }

    /// The bytes received so far, in arrival order.
    pub open spec fn data(self) -> Seq<u8> {
        self.buf@.take(self.filled as int)
    }

    /// A fresh, empty burst buffer.
    pub fn new() -> (b: ReadBurst)
        ensures
            b.wf(),
            b.data() == Seq::<u8>::empty(),
            b.buf@.len() == READ_BUFFER_INIT as int,
    {
        let mut buf: Vec<u8> = Vec::new();
        while buf.len() < READ_BUFFER_INIT
            invariant
                buf@.len() <= READ_BUFFER_INIT as int,
            decreases READ_BUFFER_INIT - buf.len(),
        {
            buf.push(0u8);
        }
        let b = ReadBurst { buf, filled: 0 };
        proof {
            assert(b.data() =~= Seq::<u8>::empty());
        }
        b
    }

    /// Record that the socket put `n` more bytes into `buf` at `filled`.
    /// Grows the buffer when the read filled it, so draining can continue.
    pub fn record_read(&mut self, n: usize)
        requires
            old(self).wf(),
            1 <= n,
            old(self).filled + n <= old(self).buf@.len(),
            old(self).buf@.len() + READ_BUFFER_STEP <= usize::MAX,
        ensures
            final(self).wf(),
            final(self).filled == old(self).filled + n,
            final(self).data() == old(self).buf@.take(old(self).filled + n),
    {
        self.filled = self.filled + n;
        if self.filled == self.buf.len() {
            let target: usize = self.buf.len() + READ_BUFFER_STEP;
            while self.buf.len() < target
                invariant
                    self.buf@.len() <= target as int,
                    self.buf@.take(self.filled as int) == old(self).buf@.take(
                        old(self).filled + n,
                    ),
                    self.filled == old(self).filled + n,
                    self.filled <= self.buf@.len(),
                decreases target - self.buf.len(),
            {
                self.buf.push(0u8);
                proof {
                    assert(self.buf@.take(self.filled as int) =~= old(self).buf@.take(
                        old(self).filled + n,
                    ));
                }
            }
        }
        proof {
            assert(self.buf@.take(self.filled as int) =~= old(self).buf@.take(
                old(self).filled + n,
            ));
        }
    }

    /// Hand over the burst's bytes for echoing.
    pub fn into_data(self) -> (p: Vec<u8>)
        requires
            self.filled <= self.buf@.len(),
        ensures
            p@ == self.data(),
    {
        let mut b = self;
        b.buf.truncate(b.filled);
        b.buf
    }
}

} // verus!
