//! The pool's formulas: minted liquidity, withdrawn amounts and the
//! fee-adjusted constant-product output, with the laws they obey.
use vstd::prelude::*;

use crate::arith::{
    floor_sqrt, integer_sqrt, is_floor_sqrt, lemma_floor_sqrt, lemma_floor_sqrt_unique,
    safe_div, safe_mul, safe_sub,
};
use crate::Balance;
use crate::error::Error;

verus! {

/// LP tokens minted to the vault at a pool's first deposit and locked there for good.
pub const MIN_LIQUIDITY: u128 = 1000;

/// Numerator of the share of an input that counts after the fee (0.3% is kept).
pub const FEE_NUMERATOR: u128 = 997;

/// Denominator of the fee fraction.
pub const FEE_DENOMINATOR: u128 = 1000;

/// The output of a swap of `amount_in` against reserves `reserve_in` and
/// `reserve_out`; zero when either reserve is empty.
pub open spec fn output_spec(amount_in: int, reserve_in: int, reserve_out: int) -> int {
    if reserve_in == 0 || reserve_out == 0 {
        0
    } else {
        (amount_in * 997 * reserve_out) / (reserve_in * 1000 + amount_in * 997)
    }
}

/// Every intermediate value of `output_spec` fits in a `u128`.
pub open spec fn output_fits(amount_in: int, reserve_in: int, reserve_out: int) -> bool {
    &&& amount_in * 997 <= u128::MAX
    &&& amount_in * 997 * reserve_out <= u128::MAX
    &&& reserve_in * 1000 <= u128::MAX
    &&& reserve_in * 1000 + amount_in * 997 <= u128::MAX
}

/// The smaller of two integers.
pub open spec fn min_int(x: int, y: int) -> int {
    if x <= y { x } else { y }
}

/// LP tokens minted for a deposit into a pool that already has issuance:
/// the smaller of the two proportional shares.
pub open spec fn proportional_share(
    issuance: int,
    amount_a: int,
    amount_b: int,
    reserve_a: int,
    reserve_b: int,
) -> int {
    min_int((amount_a * issuance) / reserve_a, (amount_b * issuance) / reserve_b)
}

/// A first deposit of `amount_a * amount_b` mints more than the locked minimum.
pub open spec fn genesis_suffices(amount_a: int, amount_b: int) -> bool {
    amount_a * amount_b >= (MIN_LIQUIDITY + 1) * (MIN_LIQUIDITY + 1)
}

/// The amount of a reserve paid out for burning `lp` of `issuance` LP tokens.
pub open spec fn withdrawn(lp: int, reserve: int, issuance: int) -> int {
    (lp * reserve) / issuance
}

/// The LP tokens minted to a provider for depositing `amount_a` and
/// `amount_b` into a pool with `issuance` LP tokens and the given reserves, or
/// why the deposit is refused.
///
/// At the first deposit (no issuance) the pool issues the integer square root
/// of the product, of which `MIN_LIQUIDITY` stays locked in the vault; later
/// deposits get the smaller of the two proportional shares.
pub open spec fn minted_liquidity(
    issuance: Balance,
    amount_a: Balance,
    amount_b: Balance,
    reserve_a: Balance,
    reserve_b: Balance,
) -> Result<Balance, Error> {
    if issuance == 0 {
        if amount_a * amount_b > u128::MAX {
            Err(Error::Arithmetic)
        } else if !genesis_suffices(amount_a as int, amount_b as int) {
            Err(Error::InsufficientLiquidity)
        } else {
            Ok((floor_sqrt((amount_a * amount_b) as nat) - MIN_LIQUIDITY) as Balance)
        }
    } else if amount_a * issuance > u128::MAX || amount_b * issuance > u128::MAX || reserve_a == 0
        || reserve_b == 0 {
        Err(Error::Arithmetic)
    } else if proportional_share(
        issuance as int,
        amount_a as int,
        amount_b as int,
        reserve_a as int,
        reserve_b as int,
    ) == 0 {
        Err(Error::InsufficientLiquidity)
    } else {
        Ok(
            proportional_share(
                issuance as int,
                amount_a as int,
                amount_b as int,
                reserve_a as int,
                reserve_b as int,
            ) as Balance,
        )
    }
}

/// The amount paid out of a swap of `amount_in` against `reserve_in` and
/// `reserve_out`, or `Arithmetic` when an intermediate value overflows.
pub open spec fn swap_output(amount_in: Balance, reserve_in: Balance, reserve_out: Balance) -> Result<
    Balance,
    Error,
> {
    if reserve_in == 0 || reserve_out == 0 {
        Ok(0)
    } else if !output_fits(amount_in as int, reserve_in as int, reserve_out as int) {
        Err(Error::Arithmetic)
    } else {
        Ok(output_spec(amount_in as int, reserve_in as int, reserve_out as int) as Balance)
    }
}

/// The amount of a reserve paid out for burning `lp` of `issuance` LP tokens,
/// or `Arithmetic` on overflow or a zero issuance.
pub open spec fn withdrawal(lp: Balance, reserve: Balance, issuance: Balance) -> Result<
    Balance,
    Error,
> {
    if lp * reserve > u128::MAX || issuance == 0 {
        Err(Error::Arithmetic)
    } else {
        Ok(withdrawn(lp as int, reserve as int, issuance as int) as Balance)
    }
}

/// The integer square root exceeds the locked minimum exactly when the
/// radicand reaches the square of the minimum plus one.
proof fn lemma_sqrt_above_minimum(n: int, s: int)
    requires
        is_floor_sqrt(n, s),
    ensures
        s > MIN_LIQUIDITY <==> n >= (MIN_LIQUIDITY + 1) * (MIN_LIQUIDITY + 1),
{
    let m = MIN_LIQUIDITY + 1;
    if s >= m {
        assert(s * s >= m * m) by (nonlinear_arith)
            requires
                s >= m,
                m > 0,
        ;
    } else {
        assert((s + 1) * (s + 1) <= m * m) by (nonlinear_arith)
            requires
                0 <= s,
                s + 1 <= m,
        ;
    }
}

/// A first deposit into a fresh pair mints exactly when the integer square
/// root of the product exceeds the locked minimum (and the product fits a
/// balance); the provider then receives that root less the locked minimum.
pub proof fn lemma_first_deposit(amount_a: Balance, amount_b: Balance)
    requires
        amount_a > 0,
        amount_b > 0,
        amount_a * amount_b <= u128::MAX,
    ensures
        minted_liquidity(0, amount_a, amount_b, 0, 0) is Ok <==> floor_sqrt(
            (amount_a * amount_b) as nat,
        ) > MIN_LIQUIDITY,
        minted_liquidity(0, amount_a, amount_b, 0, 0) is Ok ==> minted_liquidity(
            0,
            amount_a,
            amount_b,
            0,
            0,
        )->Ok_0 == floor_sqrt((amount_a * amount_b) as nat) - MIN_LIQUIDITY,
{
    let n = (amount_a * amount_b) as nat;
    lemma_floor_sqrt(n);
    lemma_sqrt_above_minimum(n as int, floor_sqrt(n) as int);
}

/// LP tokens minted to the provider for depositing `amount_a` and `amount_b`
/// into a pool with `total_issuance` LP tokens and the given reserves.
pub fn calculate_liquidity(
    total_issuance: Balance,
    amount_a: Balance,
    amount_b: Balance,
    reserve_a: Balance,
    reserve_b: Balance,
) -> (r: Result<Balance, Error>)
    ensures
        r == minted_liquidity(total_issuance, amount_a, amount_b, reserve_a, reserve_b),
{
    if total_issuance == 0 {
        let product = safe_mul(amount_a, amount_b)?;
        let root = integer_sqrt(product);
        proof {
            lemma_sqrt_above_minimum(product as int, root as int);
            lemma_floor_sqrt_unique(product as nat, root as int);
        }
        if root <= MIN_LIQUIDITY {
            return Err(Error::InsufficientLiquidity);
        }
        safe_sub(root, MIN_LIQUIDITY)
    } else {
        let a_ratio = safe_mul(amount_a, total_issuance)?;
        let share_a = safe_div(a_ratio, reserve_a)?;
        let b_ratio = safe_mul(amount_b, total_issuance)?;
        let share_b = safe_div(b_ratio, reserve_b)?;
        let liquidity = if share_a <= share_b {
            share_a
        } else {
            share_b
        };
        if liquidity == 0 {
            return Err(Error::InsufficientLiquidity);
        }
        Ok(liquidity)
    }
}

/// The output of a swap never reaches the whole out-reserve, and the product
/// of the reserves after the swap is at least the product before it.
pub proof fn lemma_swap_keeps_product(amount_in: int, reserve_in: int, reserve_out: int)
    requires
        amount_in >= 0,
        reserve_in > 0,
        reserve_out > 0,
    ensures
        0 <= output_spec(amount_in, reserve_in, reserve_out) < reserve_out,
        (reserve_in + amount_in) * (reserve_out - output_spec(amount_in, reserve_in, reserve_out))
            >= reserve_in * reserve_out,
{
    let x = amount_in * 997;
    let num = x * reserve_out;
    let den = reserve_in * 1000 + x;
    let out = num / den;
    assert(den > 0 && x >= 0) by (nonlinear_arith)
        requires
            reserve_in > 0,
            amount_in >= 0,
            x == amount_in * 997,
            den == reserve_in * 1000 + x,
    ;
    assert(num >= 0) by (nonlinear_arith)
        requires
            x >= 0,
            reserve_out > 0,
            num == x * reserve_out,
    ;
    assert(out * den <= num && out >= 0) by (nonlinear_arith)
        requires
            den > 0,
            num >= 0,
            out == num / den,
    ;
    assert(reserve_out * den > num) by (nonlinear_arith)
        requires
            num == x * reserve_out,
            den == reserve_in * 1000 + x,
            reserve_in > 0,
            reserve_out > 0,
    ;
    if out >= reserve_out {
        assert(out * den >= reserve_out * den) by (nonlinear_arith)
            requires
                out >= reserve_out,
                den > 0,
        ;
    }
    assert((reserve_in + amount_in) * (reserve_out - out) >= reserve_in * reserve_out)
        by (nonlinear_arith)
        requires
            out * den <= num,
            num == x * reserve_out,
            den == reserve_in * 1000 + x,
            x == amount_in * 997,
            amount_in >= 0,
            out >= 0,
            out < reserve_out,
    ;
}

/// `floor(p * r / q) <= a` whenever `p * r <= a * q`.
proof fn lemma_floor_div_le(p: int, r: int, q: int, a: int)
    requires
        q > 0,
        p * r >= 0,
        p * r <= a * q,
    ensures
        (p * r) / q <= a,
{
    assert((p * r) / q <= a) by (nonlinear_arith)
        requires
            q > 0,
            p * r <= a * q,
    ;
}

/// Depositing `amount_a` and `amount_b` and then burning every LP token that
/// deposit minted pays out at most what was deposited, for each asset.
///
/// The pool either is fresh (no issuance, empty reserves) or already has
/// issuance; `issuance_after` and the reserves after are those the deposit
/// leaves behind (the locked minimum counts in the issuance of a fresh pool).
pub proof fn lemma_deposit_withdraw_round_trip(
    issuance: Balance,
    reserve_a: Balance,
    reserve_b: Balance,
    amount_a: Balance,
    amount_b: Balance,
)
    requires
        issuance == 0 ==> reserve_a == 0 && reserve_b == 0,
        minted_liquidity(issuance, amount_a, amount_b, reserve_a, reserve_b) is Ok,
    ensures
        ({
            let lp = minted_liquidity(issuance, amount_a, amount_b, reserve_a, reserve_b)->Ok_0;
            let issuance_after = if issuance == 0 {
                lp + MIN_LIQUIDITY
            } else {
                issuance + lp
            };
            &&& withdrawn(lp as int, reserve_a + amount_a, issuance_after) <= amount_a
            &&& withdrawn(lp as int, reserve_b + amount_b, issuance_after) <= amount_b
        }),
{
    let lp = minted_liquidity(issuance, amount_a, amount_b, reserve_a, reserve_b)->Ok_0 as int;
    if issuance == 0 {
        let s = floor_sqrt((amount_a * amount_b) as nat) as int;
        lemma_floor_sqrt((amount_a * amount_b) as nat);
        lemma_sqrt_above_minimum(amount_a * amount_b, s);
        assert(lp * amount_a <= amount_a * s) by (nonlinear_arith)
            requires
                0 <= lp <= s,
                amount_a >= 0,
        ;
        assert(lp * amount_b <= amount_b * s) by (nonlinear_arith)
            requires
                0 <= lp <= s,
                amount_b >= 0,
        ;
        assert(lp * amount_a >= 0 && lp * amount_b >= 0) by (nonlinear_arith)
            requires
                lp >= 0,
                amount_a >= 0,
                amount_b >= 0,
        ;
        lemma_floor_div_le(lp, amount_a as int, s, amount_a as int);
        lemma_floor_div_le(lp, amount_b as int, s, amount_b as int);
    } else {
        let i = issuance as int;
        let ra = reserve_a as int;
        let rb = reserve_b as int;
        let a = amount_a as int;
        let b = amount_b as int;
        assert(lp <= (a * i) / ra && lp <= (b * i) / rb);
        assert(lp * ra <= a * i) by (nonlinear_arith)
            requires
                ra > 0,
                lp <= (a * i) / ra,
                a * i >= 0,
        ;
        assert(lp * rb <= b * i) by (nonlinear_arith)
            requires
                rb > 0,
                lp <= (b * i) / rb,
                b * i >= 0,
        ;
        assert(lp * (ra + a) <= a * (i + lp) && lp * (ra + a) >= 0) by (nonlinear_arith)
            requires
                lp * ra <= a * i,
                lp >= 0,
                ra >= 0,
                a >= 0,
        ;
        assert(lp * (rb + b) <= b * (i + lp) && lp * (rb + b) >= 0) by (nonlinear_arith)
            requires
                lp * rb <= b * i,
                lp >= 0,
                rb >= 0,
                b >= 0,
        ;
        lemma_floor_div_le(lp, ra + a, i + lp, a);
        lemma_floor_div_le(lp, rb + b, i + lp, b);
    }
}

} // verus!
