//! Upload driver for page-structured objects.
//!
//! A page-structured object has a fixed, pre-declared length and is mutated
//! through 512-byte-aligned range writes. The driver first allocates the
//! object at the source length rounded up to 512 bytes, then walks the source
//! in read windows of a configurable size: each window's bytes are zero-padded
//! up to the next 512-byte boundary and written as one page range starting at
//! the window's offset. The walk advances by the bytes actually read, never by
//! the padding, so no source byte is skipped.
//!
//! Each write takes effect on its own — there is no commit step — so the
//! caller performs each returned [`PageAction`] immediately and stops at the
//! first failure, leaving earlier pages written and later ones zero.

use crate::align::{round_up, round_up_spec};
use crate::cursor::UploadCursor;
use vstd::prelude::*;

verus! {

/// The page writes for an `n`-byte source walked from `pos` in windows of
/// `w` bytes, as `(start, write_len)` pairs: each window writes its read
/// length rounded up to the page unit, and the walk advances by the read
/// length alone. A window that would read nothing writes nothing.
pub open spec fn page_writes_spec(n: int, w: int, pos: int) -> Seq<(int, int)>
    decreases n - pos,
{
    if 0 < w && pos < n {
        let read = if n - pos < w {
            n - pos
        } else {
            w
        };
        seq![(pos, round_up_spec(read, 512))] + page_writes_spec(n, w, pos + read)
    } else {
        Seq::empty()
    }
}

/// Page coverage: when the read window is a multiple of the page unit, the
/// page ranges written for an `n`-byte source tile `[pos, round_up(n, 512))`
/// exactly — aligned, contiguous, without gaps or overlaps.
proof fn lemma_page_writes_tile(n: int, w: int, pos: int)
    requires
        w > 0,
        w % 512 == 0,
        0 <= pos <= n,
        pos % 512 == 0,
    ensures
        ({
            let s = page_writes_spec(n, w, pos);
            &&& (pos == n ==> s.len() == 0)
            &&& (pos < n ==> s.len() > 0)
            &&& (forall|i: int|
                0 <= i < s.len() ==> (#[trigger] s[i]).0 % 512 == 0 && s[i].1 % 512 == 0
                    && s[i].1 > 0)
            &&& (forall|i: int| 0 <= i < s.len() - 1 ==> (#[trigger] s[i + 1]).0 == s[i].0 + s[i].1)
            &&& (s.len() > 0 ==> s[0].0 == pos)
            &&& (s.len() > 0 ==> s.last().0 + s.last().1 == round_up_spec(n, 512))
        }),
    decreases n - pos,
{
    if pos < n {
        let read = if n - pos < w {
            n - pos
        } else {
            w
        };
        let head = (pos, round_up_spec(read, 512));
        let tail = page_writes_spec(n, w, pos + read);
        let s = page_writes_spec(n, w, pos);
        assert(s == seq![head] + tail);
        assert(s[0] == head);
        crate::align::lemma_round_up_bounds(read, 512);
        if read == w {
            crate::align::lemma_round_up_of_multiple(w, 512);
            assert((pos + w) % 512 == 0) by {
                vstd::arithmetic::div_mod::lemma_add_mod_noop(pos, w, 512);
            }
            lemma_page_writes_tile(n, w, pos + read);
            if pos + read == n {
                crate::align::lemma_round_up_of_multiple(n, 512);
                assert(tail.len() == 0);
                assert(s.len() == 1);
                assert(s.last() == head);
                assert forall|i: int|
                    0 <= i < s.len() implies (#[trigger] s[i]).0 % 512 == 0 && s[i].1 % 512 == 0
                    && s[i].1 > 0 by {
                    assert(s[i] == head);
                }
            } else {
                assert(tail.len() > 0);
                assert(tail[0].0 == pos + read);
                assert(s.last() == tail.last());
                assert(head.1 == w);
                assert forall|i: int|
                    0 <= i < s.len() implies (#[trigger] s[i]).0 % 512 == 0 && s[i].1 % 512 == 0
                    && s[i].1 > 0 by {
                    if i == 0 {
                        assert(s[i] == head);
                    } else {
                        assert(s[i] == tail[i - 1]);
                    }
                }
                assert forall|i: int|
                    0 <= i < s.len() - 1 implies (#[trigger] s[i + 1]).0 == s[i].0 + s[i].1 by {
                    if i == 0 {
                        assert(s[1] == tail[0]);
                        assert(s[0] == head);
                    } else {
                        assert(s[i] == tail[i - 1]);
                        assert(s[i + 1] == tail[i]);
                        assert((tail[(i - 1) + 1]).0 == tail[i - 1].0 + tail[i - 1].1);
                    }
                }
            }
        } else {
            assert(pos + read == n);
            assert(tail =~= Seq::<(int, int)>::empty());
            assert(s.len() == 1);
            crate::align::lemma_round_up_add_multiple(pos, read, 512);
            assert(s.last() == head);
            assert(head.0 + head.1 == round_up_spec(n, 512));
            assert forall|i: int|
                0 <= i < s.len() implies (#[trigger] s[i]).0 % 512 == 0 && s[i].1 % 512 == 0
                && s[i].1 > 0 by {
                assert(s[i] == head);
            }
        }
    }
}

/// Page coverage for a whole upload: the written page ranges exactly cover
/// `[0, round_up(n, 512))` — every range aligned to the page unit, each
/// starting where the previous one ended, the first at offset zero and the
/// last ending at the padded length. Requires the read window to be a
/// multiple of the page unit (with a misaligned window the walk aborts at
/// its first misaligned range instead).
pub proof fn lemma_page_coverage(n: int, w: int)
    requires
        w > 0,
        w % 512 == 0,
        n >= 0,
    ensures
        ({
            let s = page_writes_spec(n, w, 0);
            &&& (s.len() == 0 <==> n == 0)
            &&& (forall|i: int|
                0 <= i < s.len() ==> (#[trigger] s[i]).0 % 512 == 0 && s[i].1 % 512 == 0
                    && s[i].1 > 0)
            &&& (forall|i: int| 0 <= i < s.len() - 1 ==> (#[trigger] s[i + 1]).0 == s[i].0 + s[i].1)
            &&& (n > 0 ==> s[0].0 == 0 && s.last().0 + s.last().1 == round_up_spec(n, 512))
        }),
{
    lemma_page_writes_tile(n, w, 0);
}

/// One remote operation of a page-structured upload.
pub enum PageAction {
    /// Allocate the object with exactly `length` bytes (the padded source
    /// length), all zero.
    Create { length: u64 },
    /// Write the page range of `write_len` bytes starting at byte `start`:
    /// the next `read_len` source bytes, zero-padded to `write_len`.
    WritePage { start: u64, read_len: u64, write_len: u64 },
    /// Nothing is left to do.
    Finished,
}

/// Why a page-structured upload cannot continue.
#[derive(Debug, PartialEq, Eq, Structural)]
pub enum PageError {
    /// The next window would write a range starting at `start`, which is not
    /// a multiple of the page unit; page ranges must be 512-byte-aligned, so
    /// a read window that is not a multiple of 512 supports only sources
    /// that fit in a single window.
    UnalignedWindow { start: u64 },
}

/// Decides the sequence of remote operations for one page-structured upload.
/// Ask for actions with [`Self::next_action`] until it returns
/// [`PageAction::Finished`] or fails.
pub struct PageUploadDriver {
    /// Walk position within the source.
    pub cursor: UploadCursor,
    /// Read window size: how many source bytes each page write covers.
    pub window: u64,
    /// Whether the initial allocation has already been handed out.
    pub created: bool,
    /// The `(start, write_len)` page ranges handed out so far.
    pub emitted: Ghost<Seq<(int, int)>>,
}

impl PageUploadDriver {
    /// Well-formedness: the cursor is in bounds, the padded length fits in
    /// `u64`, the window is positive, allocation comes before any write, and
    /// the ranges handed out so far are exactly the walk's prefix.
    pub open spec fn wf(self) -> bool {
        let n = self.cursor.total_length as int;
        let pos = self.cursor.position as int;
        &&& self.cursor.wf()
        &&& self.window > 0
        &&& n <= u64::MAX - 511
        &&& (!self.created ==> pos == 0 && self.emitted@ == Seq::<(int, int)>::empty())
        &&& (forall|i: int|
            0 <= i < self.emitted@.len() ==> (#[trigger] self.emitted@[i]).0 % 512 == 0
                && self.emitted@[i].1 % 512 == 0 && self.emitted@[i].1 > 0)
        &&& self.emitted@ + page_writes_spec(n, self.window as int, pos) == page_writes_spec(
            n,
            self.window as int,
            0,
        )
    }

    /// A driver at the start of an upload of `total_length` source bytes,
    /// read in windows of `window` bytes. The window must be positive and
    /// the padded length must fit in `u64`.
    pub fn new(total_length: u64, window: u64) -> (d: Self)
        requires
            window > 0,
            total_length <= u64::MAX - 511,
        ensures
            d.wf(),
            !d.created,
            d.cursor.position == 0,
            d.cursor.total_length == total_length,
            d.window == window,
    {
        PageUploadDriver {
            cursor: UploadCursor::new(total_length),
            window,
            created: false,
            emitted: Ghost(Seq::empty()),
        }
    }

    /// The next remote operation to perform: first the allocation at the
    /// padded length, then one aligned page write per read window — each
    /// advancing the walk by its read length — and `Finished` once the
    /// source is consumed. A window whose range would start at an unaligned
    /// offset stops the walk with an error instead.
    pub fn next_action(&mut self) -> (r: Result<PageAction, PageError>)
        requires
            old(self).wf(),
        ensures
            final(self).wf(),
            final(self).window == old(self).window,
            final(self).cursor.total_length == old(self).cursor.total_length,
            !old(self).created ==> (r == Ok::<PageAction, PageError>(
                PageAction::Create {
                    length: round_up_spec(old(self).cursor.total_length as int, 512) as u64,
                },
            ) && final(self).created && final(self).cursor == old(self).cursor
                && final(self).emitted == old(self).emitted),
            old(self).created ==> final(self).created,
            old(self).created && old(self).cursor.remaining() > 0 && old(self).cursor.position
                % 512 == 0 ==> (({
                let pos = old(self).cursor.position;
                let read = old(self).cursor.window_spec(old(self).window as int);
                let written = round_up_spec(read, 512);
                &&& r == Ok::<PageAction, PageError>(
                    PageAction::WritePage {
                        start: pos,
                        read_len: read as u64,
                        write_len: written as u64,
                    },
                )
                &&& final(self).cursor.position == pos + read
                &&& final(self).emitted@ == old(self).emitted@.push((pos as int, written))
            })),
            old(self).created && old(self).cursor.remaining() > 0 && old(self).cursor.position
                % 512 != 0 ==> (r == Err::<PageAction, PageError>(
                PageError::UnalignedWindow { start: old(self).cursor.position },
            ) && *final(self) == *old(self)),
            old(self).created && old(self).cursor.remaining() == 0 ==> (r == Ok::<
                PageAction,
                PageError,
            >(PageAction::Finished) && *final(self) == *old(self) && final(self).emitted@
                == page_writes_spec(
                old(self).cursor.total_length as int,
                old(self).window as int,
                0,
            )),
    {
        let n = self.cursor.total_length;
        if !self.created {
            self.created = true;
            let padded = round_up(n, 512);
            Ok(PageAction::Create { length: padded })
        } else if !self.cursor.finished() {
            let start = self.cursor.position;
            if start % 512 != 0 {
                return Err(PageError::UnalignedWindow { start });
            }
            let read_len = self.cursor.window_len(self.window);
            let write_len = round_up(read_len, 512);
            proof {
                assert(round_up_spec(read_len as int, 512) <= u64::MAX) by {
                    crate::align::lemma_round_up_bounds(read_len as int, 512);
                }
            }
            self.cursor.advance(read_len);
            self.emitted = Ghost(self.emitted@.push((start as int, write_len as int)));
            proof {
                let w = self.window as int;
                let ni = n as int;
                assert(page_writes_spec(ni, w, start as int) == seq![
                    (start as int, write_len as int),
                ] + page_writes_spec(ni, w, start as int + read_len as int));
                assert(self.emitted@ + page_writes_spec(ni, w, self.cursor.position as int)
                    =~= old(self).emitted@ + page_writes_spec(ni, w, start as int));
            }
            Ok(PageAction::WritePage { start, read_len, write_len })
        } else {
            proof {
                let w = self.window as int;
                assert(page_writes_spec(n as int, w, self.cursor.position as int)
                    == Seq::<(int, int)>::empty());
                assert(self.emitted@ =~= page_writes_spec(n as int, w, 0));
            }
            Ok(PageAction::Finished)
        }
    }
}

/// Extend `buf` with zero bytes up to `target` bytes: the bytes already
/// there keep their places and every added byte is zero. This turns a short final
/// read into a page-unit-sized write without changing the object's content,
/// since bytes past the source length are defined to be zero.
pub fn zero_pad(buf: &mut Vec<u8>, target: usize)
    requires
        old(buf)@.len() <= target,
    ensures
        final(buf)@.len() == target,
        final(buf)@.subrange(0, old(buf)@.len() as int) == old(buf)@,
        forall|i: int| old(buf)@.len() <= i < target ==> final(buf)@[i] == 0u8,
{
    while buf.len() < target
        invariant
            old(buf)@.len() <= buf@.len() <= target,
            buf@.subrange(0, old(buf)@.len() as int) =~= old(buf)@,
            forall|i: int| old(buf)@.len() <= i < buf@.len() ==> buf@[i] == 0u8,
        decreases target - buf@.len(),
    {
        buf.push(0u8);
        proof {
            assert(buf@.subrange(0, old(buf)@.len() as int) =~= old(buf)@);
        }
    }
    proof {
        assert(buf@.subrange(0, old(buf)@.len() as int) =~= old(buf)@);
    }
}

} // verus!
