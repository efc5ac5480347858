//! Rounding a byte length up to the next multiple of a block unit.
//!
//! Page-structured objects are written in 512-byte pages, so lengths and
//! ranges must be rounded up to that unit; block counts fall out of the same
//! arithmetic.

use vstd::arithmetic::div_mod::{
    lemma_fundamental_div_mod, lemma_fundamental_div_mod_converse,
};
use vstd::prelude::*;

verus! {

/// The smallest multiple of `unit` that is at least `x` (for `unit > 0`).
pub open spec fn round_up_spec(x: int, unit: int) -> int {
    ((x + unit - 1) / unit) * unit
}

/// How `round_up_spec` relates to division and remainder, and the bounds that
/// pin it down as the least multiple of `unit` at or above `x`.
proof fn lemma_round_up_parts(x: int, unit: int)
    requires
        unit > 0,
        x >= 0,
    ensures
        x % unit == 0 ==> round_up_spec(x, unit) == x,
        x % unit != 0 ==> round_up_spec(x, unit) == x - x % unit + unit,
        round_up_spec(x, unit) % unit == 0,
        x <= round_up_spec(x, unit) < x + unit,
{
    let d = x / unit;
    let m = x % unit;
    lemma_fundamental_div_mod(x, unit);
    assert(x == d * unit + m) by (nonlinear_arith)
        requires x == unit * d + m;
    if m == 0 {
        assert(x + unit - 1 == d * unit + (unit - 1));
        lemma_fundamental_div_mod_converse(x + unit - 1, unit, d, unit - 1);
        assert(round_up_spec(x, unit) == d * unit) by {
            assert((x + unit - 1) / unit == d);
        }
    } else {
        assert(x + unit - 1 == (d + 1) * unit + (m - 1)) by (nonlinear_arith)
            requires x == d * unit + m;
        lemma_fundamental_div_mod_converse(x + unit - 1, unit, d + 1, m - 1);
        assert(round_up_spec(x, unit) == (d + 1) * unit) by {
            assert((x + unit - 1) / unit == d + 1);
        }
        assert((d + 1) * unit == x - m + unit) by (nonlinear_arith)
            requires x == d * unit + m;
        assert(x - m + unit == (d + 1) * unit + 0);
        lemma_fundamental_div_mod_converse(x - m + unit, unit, d + 1, 0);
    }
}

/// Rounding is exact on multiples and lands on the next multiple otherwise:
/// the result is a multiple of `unit` and lies in `[x, x + unit)`.
pub proof fn lemma_round_up_bounds(x: int, unit: int)
    requires
        unit > 0,
        x >= 0,
    ensures
        round_up_spec(x, unit) % unit == 0,
        x <= round_up_spec(x, unit),
        round_up_spec(x, unit) - unit < x,
{
    lemma_round_up_parts(x, unit);
}

/// Rounding up is idempotent: a second pass changes nothing.
pub proof fn lemma_round_up_idempotent(x: int, unit: int)
    requires
        unit > 0,
        x >= 0,
    ensures
        round_up_spec(round_up_spec(x, unit), unit) == round_up_spec(x, unit),
{
    lemma_round_up_parts(x, unit);
    lemma_round_up_parts(round_up_spec(x, unit), unit);
}

/// Rounding commutes with shifting by a multiple of `unit`: starting the
/// count at an aligned base `a` just offsets the rounded value by `a`.
pub proof fn lemma_round_up_add_multiple(a: int, m: int, unit: int)
    requires
        unit > 0,
        a >= 0,
        m >= 0,
        a % unit == 0,
    ensures
        round_up_spec(a + m, unit) == a + round_up_spec(m, unit),
{
    lemma_round_up_parts(m, unit);
    lemma_round_up_parts(a + m, unit);
    assert((a + m) % unit == m % unit) by {
        vstd::arithmetic::div_mod::lemma_add_mod_noop(a, m, unit);
        vstd::arithmetic::div_mod::lemma_mod_twice(m, unit);
    }
}

/// A multiple of `unit` rounds up to itself.
pub proof fn lemma_round_up_of_multiple(x: int, unit: int)
    requires
        unit > 0,
        x >= 0,
        x % unit == 0,
    ensures
        round_up_spec(x, unit) == x,
{
    lemma_round_up_parts(x, unit);
}

/// Round `x` up to the smallest multiple of `unit` that is at least `x`.
///
/// `unit` must be positive, and the rounded value must still fit in `u64`.
pub fn round_up(x: u64, unit: u64) -> (r: u64)
    requires
        unit > 0,
        round_up_spec(x as int, unit as int) <= u64::MAX,
    ensures
        r == round_up_spec(x as int, unit as int),
        r % unit == 0,
        x <= r,
        r < x + unit,
{
    proof {
        lemma_round_up_parts(x as int, unit as int);
    }
    let rem = x % unit;
    if rem == 0 {
        x
    } else {
        proof {
            assert(rem <= x) by (nonlinear_arith)
                requires rem == x as int % unit as int, x >= 0, unit > 0;
        }
        x - rem + unit
    }
}

} // verus!
