//! Block identifiers derived from byte offsets.
//!
//! Each block of a block-structured object is named by its starting byte
//! offset, rendered in upper-case hexadecimal and left-padded with `0` to at
//! least eight digits. The rendering is exact: a decode spec recovers the
//! offset from the rendered id, so distinct offsets always get distinct ids.

use vstd::arithmetic::div_mod::{
    lemma_fundamental_div_mod, lemma_multiply_divide_lt,
};
use vstd::prelude::*;

verus! {

/// The ASCII byte for hex digit value `v` (`0`-`9`, then upper-case `A`-`F`).
pub open spec fn hex_digit(v: int) -> u8 {
    if v < 10 {
        (48 + v) as u8
    } else {
        (55 + v) as u8
    }
}

/// The numeric value of the ASCII hex digit byte `b`.
pub open spec fn hex_digit_value(b: u8) -> int {
    if b < 58 {
        b - 48
    } else {
        b + 10 - 65
    }
}

/// The shortest upper-case hexadecimal rendering of `n` (no leading zeros,
/// except that zero itself renders as `"0"`).
pub open spec fn hex_rep(n: nat) -> Seq<u8>
    decreases n,
{
    if n < 16 {
        seq![hex_digit(n as int)]
    } else {
        hex_rep(n / 16) + seq![hex_digit((n % 16) as int)]
    }
}

/// `s` left-padded with ASCII `0` to at least eight bytes.
pub open spec fn left_pad8(s: Seq<u8>) -> Seq<u8> {
    if s.len() >= 8 {
        s
    } else {
        Seq::new((8 - s.len()) as nat, |i: int| 48u8) + s
    }
}

/// The block id for the block starting at byte offset `n`: upper-case hex,
/// left-padded with zeros to at least eight digits.
pub open spec fn block_id_spec(n: nat) -> Seq<u8> {
    left_pad8(hex_rep(n))
}

/// The numeric value of a big-endian sequence of ASCII hex digit bytes.
pub open spec fn hex_value(s: Seq<u8>) -> int
    decreases s.len(),
{
    if s.len() == 0 {
        0
    } else {
        hex_value(s.drop_last()) * 16 + hex_digit_value(s.last())
    }
}

/// Sixteen to the power `k`; the offsets whose rendering fits in `k` digits
/// are exactly those below it.
pub open spec fn pow16(k: nat) -> int
    decreases k,
{
    if k == 0 {
        1
    } else {
        16 * pow16((k - 1) as nat)
    }
}

/// Decoding inverts rendering: the hex digits of `n` evaluate back to `n`.
pub proof fn lemma_hex_rep_value(n: nat)
    ensures
        hex_value(hex_rep(n)) == n,
    decreases n,
{
    if n < 16 {
        let s = hex_rep(n);
        assert(s.last() == hex_digit(n as int));
        assert(s.drop_last() =~= Seq::<u8>::empty());
        assert(hex_value(Seq::<u8>::empty()) == 0);
        assert(hex_digit_value(hex_digit(n as int)) == n);
    } else {
        lemma_hex_rep_value(n / 16);
        let s = hex_rep(n);
        assert(s.last() == hex_digit((n % 16) as int));
        assert(s.drop_last() =~= hex_rep(n / 16));
        assert(hex_digit_value(hex_digit((n % 16) as int)) == n % 16);
        lemma_fundamental_div_mod(n as int, 16);
        assert(hex_value(s) == (n / 16) * 16 + n % 16);
    }
}

/// Leading ASCII-zero padding does not change the decoded value.
proof fn lemma_hex_value_zero_padding(z: Seq<u8>, s: Seq<u8>)
    requires
        forall|i: int| 0 <= i < z.len() ==> z[i] == 48u8,
    ensures
        hex_value(z + s) == hex_value(s),
    decreases s.len(),
{
    if s.len() == 0 {
        assert(z + s =~= z);
        lemma_hex_value_all_zeros(z);
    } else {
        assert((z + s).drop_last() =~= z + s.drop_last());
        lemma_hex_value_zero_padding(z, s.drop_last());
        assert((z + s).last() == s.last());
    }
}

/// A string of ASCII zeros decodes to zero.
proof fn lemma_hex_value_all_zeros(z: Seq<u8>)
    requires
        forall|i: int| 0 <= i < z.len() ==> z[i] == 48u8,
    ensures
        hex_value(z) == 0,
    decreases z.len(),
{
    if z.len() > 0 {
        lemma_hex_value_all_zeros(z.drop_last());
    }
}

/// Decoding a block id recovers the offset it was rendered from; in
/// particular distinct offsets have distinct block ids.
pub proof fn lemma_block_id_value(n: nat)
    ensures
        hex_value(block_id_spec(n)) == n,
{
    lemma_hex_rep_value(n);
    if hex_rep(n).len() < 8 {
        lemma_hex_value_zero_padding(
            Seq::new((8 - hex_rep(n).len()) as nat, |i: int| 48u8),
            hex_rep(n),
        );
    }
}

/// An offset below `pow16(k)` renders in at most `k` hex digits.
proof fn lemma_hex_rep_len(n: nat, k: nat)
    requires
        1 <= k,
        n < pow16(k),
    ensures
        hex_rep(n).len() <= k,
    decreases k,
{
    if n >= 16 {
        assert(k >= 2) by {
            if k == 1 {
                assert(pow16(1) == 16);
            }
        }
        assert((n as int) / 16 < pow16((k - 1) as nat)) by {
            lemma_multiply_divide_lt(n as int, 16, pow16((k - 1) as nat));
        }
        lemma_hex_rep_len((n / 16) as nat, (k - 1) as nat);
    }
}

/// Offsets below 2^32 render as exactly eight hex digits.
pub proof fn lemma_block_id_len8(n: nat)
    requires
        n < 0x1_0000_0000,
    ensures
        block_id_spec(n).len() == 8,
{
    reveal_with_fuel(pow16, 9);
    assert(pow16(8) == 0x1_0000_0000);
    lemma_hex_rep_len(n, 8);
}

/// The ASCII byte for hex digit value `v`.
fn hex_digit_exec(v: u64) -> (r: u8)
    requires
        v < 16,
    ensures
        r == hex_digit(v as int),
{
    if v < 10 {
        48 + (v as u8)
    } else {
        55 + (v as u8)
    }
}

/// Append the shortest hex rendering of `n` to `out`.
fn push_hex_rep(n: u64, out: &mut Vec<u8>)
    ensures
        final(out)@ == old(out)@ + hex_rep(n as nat),
    decreases n,
{
    if n < 16 {
        out.push(hex_digit_exec(n));
    } else {
        push_hex_rep(n / 16, out);
        out.push(hex_digit_exec(n % 16));
    }
}

/// Render the block id for the block starting at byte offset `offset`:
/// upper-case hexadecimal, left-padded with `0` to at least eight digits.
pub fn block_id(offset: u64) -> (r: Vec<u8>)
    ensures
        r@ == block_id_spec(offset as nat),
{
    let mut digits: Vec<u8> = Vec::new();
    push_hex_rep(offset, &mut digits);
    if digits.len() >= 8 {
        proof {
            assert(digits@ =~= block_id_spec(offset as nat));
        }
        return digits;
    }
    let pad: usize = 8 - digits.len();
    let mut r: Vec<u8> = Vec::new();
    let mut i: usize = 0;
    while i < pad
        invariant
            i <= pad,
            r@ =~= Seq::new(i as nat, |j: int| 48u8),
        decreases pad - i,
    {
        r.push(48u8);
        i = i + 1;
        proof {
            assert(r@ =~= Seq::new(i as nat, |j: int| 48u8));
        }
    }
    let mut k: usize = 0;
    while k < digits.len()
        invariant
            k <= digits@.len(),
            pad == 8 - digits@.len(),
            digits@.len() < 8,
            r@ =~= Seq::new(pad as nat, |j: int| 48u8) + digits@.subrange(0, k as int),
        decreases digits@.len() - k,
    {
        let b = digits[k];
        r.push(b);
        k = k + 1;
        proof {
            assert(r@ =~= Seq::new(pad as nat, |j: int| 48u8) + digits@.subrange(
                0,
                k as int,
            ));
        }
    }
    proof {
        assert(digits@.subrange(0, digits@.len() as int) =~= digits@);
        assert(r@ =~= block_id_spec(offset as nat));
    }
    r
}

} // verus!
