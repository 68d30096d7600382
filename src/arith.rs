//! Checked arithmetic on balances, and the two numeric primitives taken from
//! `sp-arithmetic`.
use vstd::prelude::*;
use sp_arithmetic::traits::IntegerSquareRoot;
use sp_arithmetic::Perbill;

use crate::error::Error;

verus! {

/// The number of parts in one whole of a parts-per-billion fraction.
pub const PARTS_PER_BILLION: u32 = 1_000_000_000;

/// `r` is the integer square root of `n`: the largest value whose square is at most `n`.
pub open spec fn is_floor_sqrt(n: int, r: int) -> bool {
    r >= 0 && r * r <= n && n < (r + 1) * (r + 1)
}

/// The integer square root of `n`.
pub open spec fn floor_sqrt(n: nat) -> nat
    decreases n,
{
    if n == 0 {
        0
    } else {
        let r = floor_sqrt((n - 1) as nat);
        if (r + 1) * (r + 1) <= n {
            r + 1
        } else {
            r
        }
    }
}

/// `floor_sqrt` is the integer square root.
pub proof fn lemma_floor_sqrt(n: nat)
    ensures
        is_floor_sqrt(n as int, floor_sqrt(n) as int),
        floor_sqrt(n) <= n,
    decreases n,
{
    if n > 0 {
        lemma_floor_sqrt((n - 1) as nat);
        let r = floor_sqrt((n - 1) as nat) as int;
        assert((r + 1) * (r + 1) < (r + 2) * (r + 2)) by (nonlinear_arith)
            requires
                r >= 0,
        ;
        let s = floor_sqrt(n) as int;
        if s >= 1 {
            assert(s <= s * s) by (nonlinear_arith)
                requires
                    s >= 1,
            ;
        }
    }
}

/// The integer square root is unique.
pub proof fn lemma_floor_sqrt_unique(n: nat, r: int)
    requires
        is_floor_sqrt(n as int, r),
    ensures
        r == floor_sqrt(n),
{
    lemma_floor_sqrt(n);
    let s = floor_sqrt(n) as int;
    if r < s {
        assert((r + 1) * (r + 1) <= s * s) by (nonlinear_arith)
            requires
                0 <= r < s,
        ;
    } else if s < r {
        assert((s + 1) * (s + 1) <= r * r) by (nonlinear_arith)
            requires
                0 <= s < r,
        ;
    }
}

/// `p / q` as parts per billion, rounded down; a quotient above one, or a zero
/// divisor, saturates at one whole.
pub open spec fn perbill_parts_spec(p: int, q: int) -> int {
    if q == 0 || p > q {
        PARTS_PER_BILLION as int
    } else {
        (PARTS_PER_BILLION as int * p) / q
    }
}

/// Product of two balances; `Arithmetic` when it does not fit.
pub fn safe_mul(x: u128, y: u128) -> (r: Result<u128, Error>)
    ensures
        x * y <= u128::MAX ==> r == Ok::<u128, Error>((x * y) as u128),
        x * y > u128::MAX ==> r == Err::<u128, Error>(Error::Arithmetic),
{
    match x.checked_mul(y) {
        Some(v) => Ok(v),
        None => Err(Error::Arithmetic),
    }
}

/// Quotient of two balances, rounded down; `Arithmetic` on a zero divisor.
pub fn safe_div(x: u128, y: u128) -> (r: Result<u128, Error>)
    ensures
        y != 0 ==> r == Ok::<u128, Error>((x / y) as u128),
        y == 0 ==> r == Err::<u128, Error>(Error::Arithmetic),
{
    match x.checked_div(y) {
        Some(v) => Ok(v),
        None => Err(Error::Arithmetic),
    }
}

/// Sum of two balances; `Arithmetic` when it does not fit.
pub fn safe_add(x: u128, y: u128) -> (r: Result<u128, Error>)
    ensures
        x + y <= u128::MAX ==> r == Ok::<u128, Error>((x + y) as u128),
        x + y > u128::MAX ==> r == Err::<u128, Error>(Error::Arithmetic),
{
    match x.checked_add(y) {
        Some(v) => Ok(v),
        None => Err(Error::Arithmetic),
    }
}

/// Difference of two balances; `Arithmetic` when it would be negative.
pub fn safe_sub(x: u128, y: u128) -> (r: Result<u128, Error>)
    ensures
        y <= x ==> r == Ok::<u128, Error>((x - y) as u128),
        y > x ==> r == Err::<u128, Error>(Error::Arithmetic),
{
    match x.checked_sub(y) {
        Some(v) => Ok(v),
        None => Err(Error::Arithmetic),
    }
}

/// Relies on `IntegerSquareRoot::integer_sqrt` (integer-sqrt, re-exported by
/// sp-arithmetic): for an unsigned integer it returns the floor of the square root.
#[verifier::external_body]
pub(crate) fn integer_sqrt(n: u128) -> (r: u128)
    ensures
        is_floor_sqrt(n as int, r as int),
{
    n.integer_sqrt()
}

/// Relies on `Perbill::from_rational` and `Perbill::deconstruct` (sp-arithmetic):
/// `p / q` in parts per billion rounded down, and one whole when `q` is zero or
/// `p` exceeds `q`.
#[verifier::external_body]
pub(crate) fn perbill_from_rational(p: u128, q: u128) -> (r: u32)
    ensures
        r as int == perbill_parts_spec(p as int, q as int),
{
    Perbill::from_rational(p, q).deconstruct()
}

} // verus!
