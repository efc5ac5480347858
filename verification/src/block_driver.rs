//! Upload driver for block-structured objects.
//!
//! A block-structured object is built by uploading independent, uncommitted
//! blocks and then committing an ordered list of their ids, which atomically
//! defines the object as the concatenation of those blocks. The driver turns
//! a source length and an optional explicit block size into the sequence of
//! remote operations to perform:
//!
//! * no explicit block size: one single-shot whole-object write;
//! * explicit block size `b`: one uncommitted block write per `b`-byte window
//!   of the source (the last window possibly shorter), in ascending offset
//!   order, followed by one commit of all block ids in upload order.
//!
//! The caller performs each returned [`BlockAction`] against the remote store
//! and asks for the next one; a remote failure simply abandons the driver, as
//! uncommitted blocks have no effect on the object's content.

use crate::block_id::{block_id, block_id_spec, hex_value};
use crate::cursor::UploadCursor;
use vstd::prelude::*;

verus! {

/// The number of block writes for an `n`-byte source at block size `b`:
/// `n / b` rounded up (zero for an empty source).
pub open spec fn num_blocks(n: int, b: int) -> int {
    (n + b - 1) / b
}

/// The block ids committed for an `n`-byte source at block size `b`, in
/// upload order: one per window, named after the window's starting offset.
pub open spec fn block_ids_spec(n: int, b: int) -> Seq<Seq<u8>> {
    Seq::new(num_blocks(n, b) as nat, |i: int| block_id_spec((i * b) as nat))
}

/// The `(offset, length)` of each block write for an `n`-byte source at
/// block size `b`, in upload order.
pub open spec fn block_windows_spec(n: int, b: int) -> Seq<(int, int)> {
    Seq::new(
        num_blocks(n, b) as nat,
        |i: int| (i * b, if n - i * b <= b { n - i * b } else { b }),
    )
}

/// Basic bounds for the block count: an empty source has no blocks, and for
/// a non-empty source the windows end exactly at or past `n`, with the last
/// window starting before `n`.
pub proof fn lemma_num_blocks(n: int, b: int)
    requires
        b > 0,
        n >= 0,
    ensures
        num_blocks(n, b) >= 0,
        n == 0 ==> num_blocks(n, b) == 0,
        n > 0 ==> (num_blocks(n, b) - 1) * b < n <= num_blocks(n, b) * b,
{
    crate::align::lemma_round_up_bounds(n, b);
    let q = num_blocks(n, b);
    assert(q * b == crate::align::round_up_spec(n, b));
    if n == 0 {
        assert(q * b < b);
        assert(q == 0) by (nonlinear_arith)
            requires q * b < b, q * b >= 0, b > 0;
    } else {
        assert(q * b - b < n);
        assert((q - 1) * b == q * b - b) by (nonlinear_arith);
    }
}

/// The block count is determined by any `k` whose windows reach `n`: if
/// `(k - 1) * b < n <= k * b` then `k` is the number of blocks.
proof fn lemma_num_blocks_unique(n: int, b: int, k: int)
    requires
        b > 0,
        k > 0,
        (k - 1) * b < n,
        n <= k * b,
    ensures
        num_blocks(n, b) == k,
{
    let r = n + b - 1 - k * b;
    assert(k * b - b == (k - 1) * b) by (nonlinear_arith);
    assert(n + b - 1 == k * b + r);
    vstd::arithmetic::div_mod::lemma_fundamental_div_mod_converse(n + b - 1, b, k, r);
}

/// Block id monotonicity: decoding the committed ids, in order, gives back
/// exactly the window offsets `0, b, 2b, ...` — one id per window, strictly
/// increasing, hence all distinct.
pub proof fn lemma_block_id_monotonicity(n: int, b: int)
    requires
        b > 0,
        n >= 0,
    ensures
        block_ids_spec(n, b).len() == num_blocks(n, b),
        forall|i: int|
            0 <= i < num_blocks(n, b) ==> hex_value(#[trigger] block_ids_spec(n, b)[i]) == i * b,
        forall|i: int, j: int|
            0 <= i < j < num_blocks(n, b) ==> hex_value(#[trigger] block_ids_spec(n, b)[i])
                < hex_value(#[trigger] block_ids_spec(n, b)[j]),
        forall|i: int, j: int|
            0 <= i < j < num_blocks(n, b) ==> #[trigger] block_ids_spec(n, b)[i]
                != #[trigger] block_ids_spec(n, b)[j],
{
    lemma_num_blocks(n, b);
    assert forall|i: int| 0 <= i < num_blocks(n, b) implies hex_value(
        #[trigger] block_ids_spec(n, b)[i],
    ) == i * b by {
        assert(i * b >= 0) by (nonlinear_arith)
            requires i >= 0, b > 0;
        crate::block_id::lemma_block_id_value((i * b) as nat);
    }
    assert forall|i: int, j: int| 0 <= i < j < num_blocks(n, b) implies hex_value(
        #[trigger] block_ids_spec(n, b)[i],
    ) < hex_value(#[trigger] block_ids_spec(n, b)[j]) by {
        assert(i * b < j * b) by (nonlinear_arith)
            requires i < j, b > 0;
    }
}

/// Block list completeness: the committed list has exactly one id per block
/// write, in upload order — the `i`-th committed id names the `i`-th window.
pub proof fn lemma_block_list_complete(n: int, b: int)
    requires
        b > 0,
        n >= 0,
    ensures
        block_ids_spec(n, b).len() == block_windows_spec(n, b).len(),
        forall|i: int|
            0 <= i < block_windows_spec(n, b).len() ==> #[trigger] block_ids_spec(n, b)[i]
                == block_id_spec(block_windows_spec(n, b)[i].0 as nat),
{
    assert forall|i: int| 0 <= i < block_windows_spec(n, b).len() implies #[trigger] block_ids_spec(
        n,
        b,
    )[i] == block_id_spec(block_windows_spec(n, b)[i].0 as nat) by {
        assert(block_windows_spec(n, b)[i].0 == i * b);
    }
}

/// Block coverage: the write windows partition `[0, n)` in ascending offset
/// order — each window starts where the previous one ended, every window
/// but the last is a full block, and the last ends exactly at `n`.
pub proof fn lemma_block_windows_partition(n: int, b: int)
    requires
        b > 0,
        n >= 0,
    ensures
        ({
            let s = block_windows_spec(n, b);
            &&& (s.len() == 0 <==> n == 0)
            &&& (forall|i: int| 0 <= i < s.len() ==> 0 < (#[trigger] s[i]).1 <= b)
            &&& (forall|i: int| 0 <= i < s.len() - 1 ==> (#[trigger] s[i]).1 == b)
            &&& (forall|i: int| 0 <= i < s.len() - 1 ==> (#[trigger] s[i + 1]).0 == s[i].0 + s[i].1)
            &&& (s.len() > 0 ==> s[0].0 == 0 && s.last().0 + s.last().1 == n)
        }),
{
    lemma_num_blocks(n, b);
    let s = block_windows_spec(n, b);
    let k = num_blocks(n, b);
    assert forall|i: int| 0 <= i < s.len() implies 0 < (#[trigger] s[i]).1 <= b by {
        assert(i * b < n) by (nonlinear_arith)
            requires i <= k - 1, (k - 1) * b < n, b > 0;
    }
    assert forall|i: int| 0 <= i < s.len() - 1 implies (#[trigger] s[i]).1 == b by {
        assert(n - i * b > b) by (nonlinear_arith)
            requires i <= k - 2, (k - 1) * b < n, b > 0;
    }
    assert forall|i: int| 0 <= i < s.len() - 1 implies (#[trigger] s[i + 1]).0 == s[i].0 + s[i].1
        by {
        assert((i + 1) * b == i * b + b) by (nonlinear_arith);
        assert(n - i * b > b) by (nonlinear_arith)
            requires i <= k - 2, (k - 1) * b < n, b > 0;
    }
    if n > 0 {
        assert(s.last().0 == (k - 1) * b);
        assert(n - (k - 1) * b <= b) by (nonlinear_arith)
            requires n <= k * b, b > 0;
    }
}

/// One remote operation of a block-structured upload.
pub enum BlockAction {
    /// Upload the entire source as one whole-object write.
    PutWhole,
    /// Upload the `len` source bytes starting at `offset` as an uncommitted
    /// block named `block_id`.
    WriteBlock { offset: u64, len: u64, block_id: Vec<u8> },
    /// Commit the uploaded blocks in exactly this order.
    CommitList { block_ids: Vec<Vec<u8>> },
    /// Nothing is left to do.
    Finished,
}

/// Decides the sequence of remote operations for one block-structured
/// upload. Ask for actions with [`Self::next_action`] until it returns
/// [`BlockAction::Finished`].
pub struct BlockUploadDriver {
    /// Walk position within the source.
    pub cursor: UploadCursor,
    /// Explicit block size, if chunking was requested.
    pub block_size: Option<u64>,
    /// Ids of the blocks written so far, in upload order.
    pub block_ids: Vec<Vec<u8>>,
    /// Whether the terminal operation has already been handed out.
    pub done: bool,
    /// The `(offset, len)` block writes handed out so far.
    pub emitted: Ghost<Seq<(int, int)>>,
}

impl BlockUploadDriver {
    /// Well-formedness: the cursor is in bounds and, when chunking, the
    /// recorded ids are exactly those of the windows already walked.
    pub open spec fn wf(self) -> bool {
        let pos = self.cursor.position as int;
        let n = self.cursor.total_length as int;
        let k = self.block_ids@.len() as int;
        &&& self.cursor.wf()
        &&& match self.block_size {
            Option::None => pos == 0 && self.emitted@ == Seq::<(int, int)>::empty(),
            Option::Some(b) => {
                &&& b > 0
                &&& if self.done {
                    pos == n
                } else {
                    &&& (forall|i: int|
                        0 <= i < k ==> #[trigger] self.block_ids@[i]@ == block_id_spec(
                            (i * b) as nat,
                        ))
                    &&& pos <= k * (b as int)
                    &&& (pos == n || pos == k * (b as int))
                    &&& (k == 0 ==> pos == 0)
                    &&& (k > 0 ==> (k - 1) * (b as int) < pos)
                    &&& self.emitted@ == block_windows_spec(pos, b as int)
                }
            },
        }
    }

    /// A driver at the start of an upload of `total_length` source bytes,
    /// chunked at `block_size` if one was given (an explicit block size must
    /// be positive).
    pub fn new(total_length: u64, block_size: Option<u64>) -> (d: Self)
        requires
            block_size matches Some(b) ==> b > 0,
        ensures
            d.wf(),
            !d.done,
            d.cursor.position == 0,
            d.cursor.total_length == total_length,
            d.block_size == block_size,
            d.block_ids@.len() == 0,
            d.emitted@ == Seq::<(int, int)>::empty(),
    {
        let d = BlockUploadDriver {
            cursor: UploadCursor::new(total_length),
            block_size,
            block_ids: Vec::new(),
            done: false,
            emitted: Ghost(Seq::empty()),
        };
        proof {
            match block_size {
                Option::Some(b) => {
                    lemma_num_blocks(0, b as int);
                    assert(d.emitted@ =~= block_windows_spec(0, b as int));
                },
                Option::None => {},
            }
        }
        d
    }

    /// The next remote operation to perform.
    ///
    /// Without an explicit block size this is one whole-object write, then
    /// `Finished`. With block size `b` it is one uncommitted block write per
    /// window in ascending offset order — each named after its starting
    /// offset — then one commit listing every id in upload order, then
    /// `Finished`.
    pub fn next_action(&mut self) -> (a: BlockAction)
        requires
            old(self).wf(),
        ensures
            final(self).wf(),
            final(self).block_size == old(self).block_size,
            final(self).cursor.total_length == old(self).cursor.total_length,
            old(self).block_size is None ==> final(self).cursor == old(self).cursor,
            (old(self).block_size is None && !old(self).done) ==> (a == BlockAction::PutWhole
                && final(self).done),
            (old(self).block_size is None && old(self).done) ==> (a == BlockAction::Finished
                && final(self).done),
            old(self).block_size matches Some(b) ==> old(self).cursor.remaining() > 0 ==> (a
                matches BlockAction::WriteBlock { offset, len, block_id }
                && offset == old(self).cursor.position
                && len == old(self).cursor.window_spec(b as int)
                && len > 0
                && block_id@ == block_id_spec(old(self).cursor.position as nat)
                && final(self).cursor.position == old(self).cursor.position + len
                && final(self).block_ids@.len() == old(self).block_ids@.len() + 1
                && final(self).block_ids@.last()@ == block_id_spec(
                    old(self).cursor.position as nat,
                )
                && (forall|i: int|
                    0 <= i < old(self).block_ids@.len() ==> final(self).block_ids@[i] == old(
                        self,
                    ).block_ids@[i])
                && final(self).emitted@ == old(self).emitted@.push(
                    (old(self).cursor.position as int, len as int),
                )
                && final(self).done == old(self).done),
            old(self).block_size matches Some(b) ==> old(self).cursor.remaining() == 0 && !old(
                self,
            ).done ==> (a matches BlockAction::CommitList { block_ids }
                && block_ids == old(self).block_ids
                && block_ids@.len() == num_blocks(
                    old(self).cursor.total_length as int,
                    b as int,
                )
                && (forall|i: int|
                    0 <= i < block_ids@.len() ==> #[trigger] block_ids@[i]@ == block_id_spec(
                        (i * b) as nat,
                    ))
                && final(self).emitted@ == block_windows_spec(
                    old(self).cursor.total_length as int,
                    b as int,
                )
                && block_ids@.len() == final(self).emitted@.len()
                && (forall|i: int|
                    0 <= i < block_ids@.len() ==> #[trigger] block_ids@[i]@ == block_id_spec(
                        final(self).emitted@[i].0 as nat,
                    ))
                && final(self).done),
            (old(self).block_size is Some && old(self).cursor.remaining() == 0 && old(self).done)
                ==> a == BlockAction::Finished,
    {
        match self.block_size {
            Option::None => {
                if self.done {
                    BlockAction::Finished
                } else {
                    self.done = true;
                    BlockAction::PutWhole
                }
            },
            Option::Some(b) => {
                if !self.cursor.finished() {
                    let ghost k = self.block_ids@.len() as int;
                    let ghost n = self.cursor.total_length as int;
                    let offset = self.cursor.position;
                    let len = self.cursor.window_len(b);
                    let id = block_id(offset);
                    let id_for_list = block_id(offset);
                    self.block_ids.push(id_for_list);
                    self.cursor.advance(len);
                    self.emitted = Ghost(self.emitted@.push((offset as int, len as int)));
                    proof {
                        let bi = b as int;
                        let newpos = self.cursor.position as int;
                        assert((k + 1) * bi == k * bi + bi) by (nonlinear_arith);
                        assert(offset == k * bi);
                        assert forall|i: int| 0 <= i < k + 1 implies #[trigger] self
                            .block_ids@[i]@ == block_id_spec((i * bi) as nat) by {
                            if i < k {
                                assert(self.block_ids@[i] == old(self).block_ids@[i]);
                            }
                        }
                        if k == 0 {
                            lemma_num_blocks(offset as int, bi);
                        } else {
                            assert((k - 1) * bi < offset);
                            lemma_num_blocks_unique(offset as int, bi, k);
                        }
                        lemma_num_blocks_unique(newpos, bi, k + 1);
                        assert forall|i: int|
                            0 <= i < k + 1 implies block_windows_spec(newpos, bi)[i]
                            == #[trigger] self.emitted@[i] by {
                            if i < k {
                                assert(old(self).emitted@[i] == block_windows_spec(
                                    offset as int,
                                    bi,
                                )[i]);
                                assert(offset - i * bi >= bi) by (nonlinear_arith)
                                    requires i < k, offset == k * bi, bi > 0;
                            }
                        }
                        assert(self.emitted@ =~= block_windows_spec(newpos, bi));
                    }
                    BlockAction::WriteBlock { offset, len, block_id: id }
                } else if !self.done {
                    self.done = true;
                    let mut ids: Vec<Vec<u8>> = Vec::new();
                    core::mem::swap(&mut self.block_ids, &mut ids);
                    proof {
                        let n = self.cursor.total_length as int;
                        let bi = b as int;
                        let k = ids@.len() as int;
                        if k == 0 {
                            lemma_num_blocks(n, bi);
                        } else {
                            lemma_num_blocks_unique(n, bi, k);
                        }
                    }
                    BlockAction::CommitList { block_ids: ids }
                } else {
                    BlockAction::Finished
                }
            },
        }
    }
}

} // verus!
