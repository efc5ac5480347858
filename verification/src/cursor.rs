//! Offset tracking for a sequential source being uploaded.
//!
//! Both drivers walk a local file front to back. The cursor records how far
//! the walk has come and how long the source is, so the next window and the
//! stopping condition are pure functions of its state. It only ever moves
//! forward, and never past the total length.

use vstd::prelude::*;

verus! {

/// Read offset and total length of a sequential source.
pub struct UploadCursor {
    /// Bytes consumed so far; the offset the next read starts at.
    pub position: u64,
    /// Total number of bytes the source holds.
    pub total_length: u64,
}

impl UploadCursor {
    /// The position never passes the total length.
    pub open spec fn wf(self) -> bool {
        self.position <= self.total_length
    }

    /// Bytes not yet consumed.
    pub open spec fn remaining(self) -> int {
        self.total_length - self.position
    }

    /// The length of the next read window, capped at `max`.
    pub open spec fn window_spec(self, max: int) -> int {
        if max <= self.remaining() {
            max
        } else {
            self.remaining()
        }
    }

    /// A cursor at the start of a source of `total_length` bytes.
    pub fn new(total_length: u64) -> (c: Self)
        ensures
            c.wf(),
            c.position == 0,
            c.total_length == total_length,
    {
        UploadCursor { position: 0, total_length }
    }

    /// Whether the source is fully consumed.
    pub fn finished(&self) -> (r: bool)
        requires
            self.wf(),
        ensures
            r == (self.remaining() == 0),
    {
        self.position == self.total_length
    }

    /// How many bytes the next read of at most `max` bytes will deliver:
    /// `max`, except that the final window is cut short at the end of the
    /// source.
    pub fn window_len(&self, max: u64) -> (r: u64)
        requires
            self.wf(),
        ensures
            r == self.window_spec(max as int),
    {
        let remaining = self.total_length - self.position;
        if max <= remaining {
            max
        } else {
            remaining
        }
    }

    /// Move past `n` consumed bytes.
    pub fn advance(&mut self, n: u64)
        requires
            old(self).wf(),
            n <= old(self).remaining(),
        ensures
            final(self).wf(),
            final(self).position == old(self).position + n,
            final(self).total_length == old(self).total_length,
    {
        self.position = self.position + n;
    }
}

} // verus!
