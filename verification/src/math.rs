//! The pricing engine: pure, overflow-checked integer arithmetic that turns a
//! requested swap, deposit or withdrawal into exact amounts.
//!
//! Rounding policy, stated once and obeyed by every formula here: every
//! division that determines what the pool pays out rounds down (floor), and
//! every division that determines what the pool is owed rounds up (ceiling).
//! The engine never rounds in the trader's favor.
//!
//! All quantities are non-negative fixed-width integers. Intermediate products
//! of two 64-bit amounts are carried in 128 bits, where they cannot overflow;
//! every step that could overflow, underflow or divide by zero is guarded and
//! reported as [`AmmError::ArithmeticError`] instead of wrapping.

use vstd::prelude::*;
use vstd::arithmetic::div_mod::{
    lemma_div_is_ordered, lemma_div_multiples_vanish, lemma_div_nonincreasing,
    lemma_div_pos_is_pos, lemma_fundamental_div_mod, lemma_mod_division_less_than_divisor,
};
use vstd::arithmetic::mul::lemma_mul_nonnegative;

use crate::error::AmmError;

verus! {

/// `n / d` rounded toward positive infinity (for non-negative `n`, positive `d`).
pub open spec fn div_ceil_spec(n: int, d: int) -> int
    recommends
        n >= 0,
        d > 0,
{
    if n % d == 0 {
        n / d
    } else {
        n / d + 1
    }
}

/// `r` is the integer square root of `x`, rounded down.
pub open spec fn is_floor_sqrt(r: int, x: int) -> bool {
    r * r <= x < (r + 1) * (r + 1)
}

/// The fee withheld from a swap input: `floor(amount_in * fee_num / fee_den)`.
pub open spec fn fee_amount(amount_in: int, fee_num: int, fee_den: int) -> int
    recommends
        fee_den > 0,
{
    amount_in * fee_num / fee_den
}

/// The portion of a swap input credited to the curve after the fee.
pub open spec fn net_input(amount_in: int, fee_num: int, fee_den: int) -> int
    recommends
        fee_den > 0,
{
    amount_in - fee_amount(amount_in, fee_num, fee_den)
}

/// What a swap of `amount_in` pays out against the given reserves:
/// `floor(reserve_out * net_in / (reserve_in + net_in))`.
pub open spec fn swap_output(
    amount_in: int,
    reserve_in: int,
    reserve_out: int,
    fee_num: int,
    fee_den: int,
) -> int
    recommends
        fee_den > 0,
        reserve_in + net_input(amount_in, fee_num, fee_den) > 0,
{
    reserve_out * net_input(amount_in, fee_num, fee_den) / (reserve_in + net_input(
        amount_in,
        fee_num,
        fee_den,
    ))
}

/// The exact-input swap fails with an arithmetic error if and only if this
/// holds: the fee fraction divides by zero, the fee exceeds the input
/// (underflow), or the output divisor is zero.
pub open spec fn swap_input_arith_fails(
    amount_in: int,
    reserve_in: int,
    fee_num: int,
    fee_den: int,
) -> bool {
    ||| fee_den == 0
    ||| fee_amount(amount_in, fee_num, fee_den) > amount_in
    ||| reserve_in + net_input(amount_in, fee_num, fee_den) == 0
}

/// Ceiling division times the divisor covers the dividend: the pool is never
/// owed less than the exact quotient.
pub proof fn lemma_div_ceil_covers(n: int, d: int)
    requires
        n >= 0,
        d > 0,
    ensures
        div_ceil_spec(n, d) * d >= n,
{
    let q = n / d;
    let r = n % d;
    lemma_fundamental_div_mod(n, d);
    lemma_mod_division_less_than_divisor(n, d);
    if r == 0 {
        assert(q * d >= n) by (nonlinear_arith)
            requires
                n == d * q + r,
                r == 0,
        ;
    } else {
        assert((q + 1) * d >= n) by (nonlinear_arith)
            requires
                n == d * q + r,
                r < d,
        ;
    }
}

/// Ceiling division never overshoots a bound that already covers the
/// dividend: if `n <= b * d` then `ceil(n / d) <= b`.
pub proof fn lemma_div_ceil_bounded(n: int, d: int, b: int)
    requires
        n >= 0,
        d > 0,
        b >= 0,
        n <= b * d,
    ensures
        div_ceil_spec(n, d) <= b,
{
    let q = n / d;
    let r = n % d;
    lemma_fundamental_div_mod(n, d);
    lemma_mod_division_less_than_divisor(n, d);
    if r == 0 {
        assert(q <= b) by (nonlinear_arith)
            requires
                n == d * q + r,
                r == 0,
                n <= b * d,
                d > 0,
        ;
    } else {
        assert(q + 1 <= b) by (nonlinear_arith)
            requires
                n == d * q + r,
                0 < r < d,
                n <= b * d,
                d > 0,
        ;
    }
}

/// Floor division: the named rounding primitive for every amount the pool
/// pays out.
pub fn div_floor_u128(n: u128, d: u128) -> (r: u128)
    requires
        d > 0,
    ensures
        r as int == n as int / d as int,
{
    n / d
}

/// Ceiling division: the named rounding primitive for every amount the pool
/// is owed.
pub fn div_ceil_u128(n: u128, d: u128) -> (r: u128)
    requires
        d > 0,
        n < u128::MAX,
    ensures
        r as int == div_ceil_spec(n as int, d as int),
{
    let q = n / d;
    let rem = n % d;
    if rem == 0 {
        q
    } else {
        proof {
            lemma_div_nonincreasing(n as int, d as int);
        }
        q + 1
    }
}

/// Integer square root by bisection: the unique `r` with `r² <= x < (r+1)²`.
pub fn isqrt_u128(x: u128) -> (r: u64)
    ensures
        is_floor_sqrt(r as int, x as int),
{
    let mut lo: u128 = 0;
    let mut hi: u128 = 18446744073709551616;
    proof {
        assert(x < 18446744073709551616int * 18446744073709551616int) by (nonlinear_arith)
            requires
                x <= u128::MAX,
        ;
    }
    while lo + 1 < hi
        invariant
            lo < hi <= 18446744073709551616,
            lo * lo <= x,
            x < hi * hi,
        decreases hi - lo,
    {
        let mid = lo + (hi - lo) / 2;
        proof {
            assert(mid * mid <= u128::MAX) by (nonlinear_arith)
                requires
                    mid < 18446744073709551616,
        ;
        }
        if mid * mid <= x {
            lo = mid;
        } else {
            hi = mid;
        }
    }
    lo as u64
}

/// Swap with an exact input: withholds the fee, then pays out
/// `floor(reserve_out * net_in / (reserve_in + net_in))`.
///
/// The constant-product invariant can only grow: on success,
/// `(reserve_in + net_in) * (reserve_out - amount_out) >= reserve_in * reserve_out`,
/// because the payout division rounds down, never in the trader's favor.
pub fn swap_exact_input(
    amount_in: u64,
    reserve_in: u64,
    reserve_out: u64,
    fee_num: u64,
    fee_den: u64,
) -> (r: Result<u64, AmmError>)
    ensures
        (match r {
            Ok(out) => {
                &&& !swap_input_arith_fails(
                    amount_in as int,
                    reserve_in as int,
                    fee_num as int,
                    fee_den as int,
                )
                &&& out as int == swap_output(
                    amount_in as int,
                    reserve_in as int,
                    reserve_out as int,
                    fee_num as int,
                    fee_den as int,
                )
                &&& out < reserve_out
                &&& (reserve_in + net_input(amount_in as int, fee_num as int, fee_den as int)) * (
                reserve_out - out) >= reserve_in as int * reserve_out as int
            },
            Err(e) => {
                if swap_input_arith_fails(
                    amount_in as int,
                    reserve_in as int,
                    fee_num as int,
                    fee_den as int,
                ) {
                    e == AmmError::ArithmeticError
                } else {
                    &&& e == AmmError::InsufficientLiquidity
                    &&& swap_output(
                        amount_in as int,
                        reserve_in as int,
                        reserve_out as int,
                        fee_num as int,
                        fee_den as int,
                    ) >= reserve_out
                }
            },
        }),
{
    if fee_den == 0 {
        return Err(AmmError::ArithmeticError);
    }
    let a: u128 = amount_in as u128;
    let num: u128 = fee_num as u128;
    let den: u128 = fee_den as u128;
    proof {
        assert(a * num <= u128::MAX) by (nonlinear_arith)
            requires
                a < 18446744073709551616,
                num < 18446744073709551616,
        ;
    }
    let fee = (a * num) / den;
    if fee > a {
        return Err(AmmError::ArithmeticError);
    }
    let net = a - fee;
    let rin: u128 = reserve_in as u128;
    let rout: u128 = reserve_out as u128;
    let denom = rin + net;
    if denom == 0 {
        return Err(AmmError::ArithmeticError);
    }
    proof {
        assert(rout * net <= u128::MAX) by (nonlinear_arith)
            requires
                rout < 18446744073709551616,
                net < 18446744073709551616,
        ;
    }
    let out = div_floor_u128(rout * net, denom);
    if out >= rout {
        return Err(AmmError::InsufficientLiquidity);
    }
    proof {
        lemma_fundamental_div_mod(rout as int * net as int, denom as int);
        lemma_mod_division_less_than_divisor(rout as int * net as int, denom as int);
        assert(denom * (rout - out) >= rin * rout) by (nonlinear_arith)
            requires
                denom == rin + net,
                denom > 0,
                rout as int * net as int == denom as int * (out as int) + (rout as int
                    * net as int) % (denom as int),
                (rout as int * net as int) % (denom as int) >= 0,
                out <= rout,
                net >= 0,
                rin >= 0,
        ;
    }
    Ok(out as u64)
}

/// The net input the curve requires to release `amount_out`:
/// `ceil(reserve_in * amount_out / (reserve_out - amount_out))`.
pub open spec fn swap_input_net_required(amount_out: int, reserve_in: int, reserve_out: int) -> int
    recommends
        0 <= amount_out < reserve_out,
{
    div_ceil_spec(reserve_in * amount_out, reserve_out - amount_out)
}

/// The gross input owed for `amount_out` once the net requirement is grossed
/// up for the fee, again by ceiling division.
pub open spec fn swap_input_required(
    amount_out: int,
    reserve_in: int,
    reserve_out: int,
    fee_num: int,
    fee_den: int,
) -> int
    recommends
        0 <= amount_out < reserve_out,
        0 <= fee_num < fee_den,
{
    div_ceil_spec(
        swap_input_net_required(amount_out, reserve_in, reserve_out) * fee_den,
        fee_den - fee_num,
    )
}

/// Swap with an exact output: computes the required input by inverting the
/// curve and rounding up, then grosses it up for the fee, rounding up again,
/// so the pool never receives less than it is owed.
///
/// On success the result is never below the exact (unrounded) requirement:
/// `amount_in * (fee_den - fee_num) * (reserve_out - amount_out)
///  >= reserve_in * amount_out * fee_den`.
pub fn swap_exact_output(
    amount_out: u64,
    reserve_in: u64,
    reserve_out: u64,
    fee_num: u64,
    fee_den: u64,
) -> (r: Result<u64, AmmError>)
    ensures
        (match r {
            Ok(v) => {
                &&& amount_out < reserve_out
                &&& fee_num < fee_den
                &&& v as int == swap_input_required(
                    amount_out as int,
                    reserve_in as int,
                    reserve_out as int,
                    fee_num as int,
                    fee_den as int,
                )
                &&& v as int * ((fee_den - fee_num) * (reserve_out - amount_out))
                    >= reserve_in as int * amount_out as int * fee_den as int
            },
            Err(e) => {
                if amount_out >= reserve_out {
                    e == AmmError::InsufficientLiquidity
                } else if fee_num >= fee_den {
                    e == AmmError::ArithmeticError
                } else {
                    &&& e == AmmError::ArithmeticError
                    &&& swap_input_required(
                        amount_out as int,
                        reserve_in as int,
                        reserve_out as int,
                        fee_num as int,
                        fee_den as int,
                    ) > u64::MAX
                }
            },
        }),
{
    if amount_out >= reserve_out {
        return Err(AmmError::InsufficientLiquidity);
    }
    if fee_num >= fee_den {
        return Err(AmmError::ArithmeticError);
    }
    let out: u128 = amount_out as u128;
    let rin: u128 = reserve_in as u128;
    let rout: u128 = reserve_out as u128;
    let num: u128 = fee_num as u128;
    let den: u128 = fee_den as u128;
    proof {
        assert(rin * out < u128::MAX) by (nonlinear_arith)
            requires
                rin < 18446744073709551616,
                out < 18446744073709551616,
        ;
    }
    let net = div_ceil_u128(rin * out, rout - out);
    let ghost net_spec = swap_input_net_required(
        amount_out as int,
        reserve_in as int,
        reserve_out as int,
    );
    let ghost gross_spec = swap_input_required(
        amount_out as int,
        reserve_in as int,
        reserve_out as int,
        fee_num as int,
        fee_den as int,
    );
    proof {
        lemma_div_ceil_covers(net_spec * fee_den as int, fee_den as int - fee_num as int);
        // The grossed-up requirement is at least the net requirement.
        assert(gross_spec >= net_spec) by (nonlinear_arith)
            requires
                gross_spec * (fee_den as int - fee_num as int) >= net_spec * fee_den as int,
                fee_den as int - fee_num as int > 0,
                fee_num as int >= 0,
                net_spec >= 0,
        ;
    }
    if net > 0xffff_ffff_ffff_ffffu128 {
        return Err(AmmError::ArithmeticError);
    }
    proof {
        assert(net * den < u128::MAX) by (nonlinear_arith)
            requires
                net < 18446744073709551616,
                den < 18446744073709551616,
        ;
    }
    let gross = div_ceil_u128(net * den, den - num);
    if gross > 0xffff_ffff_ffff_ffffu128 {
        return Err(AmmError::ArithmeticError);
    }
    proof {
        lemma_div_ceil_covers(rin as int * out as int, rout as int - out as int);
        assert(gross as int * ((fee_den - fee_num) * (reserve_out as int - amount_out as int))
            >= reserve_in as int * amount_out as int * fee_den as int) by (nonlinear_arith)
            requires
                gross as int * (fee_den as int - fee_num as int) >= net as int * fee_den as int,
                net as int * (reserve_out as int - amount_out as int) >= reserve_in as int
                    * amount_out as int,
                reserve_out as int - amount_out as int > 0,
                fee_den as int > 0,
                fee_den as int - fee_num as int > 0,
                net as int >= 0,
                reserve_in as int >= 0,
                amount_out as int >= 0,
        ;
    }
    Ok(gross as u64)
}

/// The claim ratio one side of a deposit supports:
/// `floor(amount * lp_supply / reserve)`.
pub open spec fn deposit_ratio(amount: int, lp_supply: int, reserve: int) -> int
    recommends
        reserve > 0,
{
    amount * lp_supply / reserve
}

/// The LP amount a proportional deposit mints: the smaller of the two sides'
/// claim ratios.
pub open spec fn lp_due(
    amount_a: int,
    amount_b: int,
    reserve_a: int,
    reserve_b: int,
    lp_supply: int,
) -> int
    recommends
        reserve_a > 0,
        reserve_b > 0,
{
    let ratio_a = deposit_ratio(amount_a, lp_supply, reserve_a);
    let ratio_b = deposit_ratio(amount_b, lp_supply, reserve_b);
    if ratio_a <= ratio_b {
        ratio_a
    } else {
        ratio_b
    }
}

/// What the pool charges for minting `lp` claim tokens against one reserve:
/// `ceil(lp * reserve / lp_supply)`.
pub open spec fn charge_for_lp(lp: int, reserve: int, lp_supply: int) -> int
    recommends
        lp_supply > 0,
{
    div_ceil_spec(lp * reserve, lp_supply)
}

/// A floor square root `s` of `x` is at most `f` exactly when `x < (f+1)²`.
proof fn lemma_floor_sqrt_le_bound(s: int, x: int, f: int)
    requires
        is_floor_sqrt(s, x),
        s >= 0,
        f >= 0,
    ensures
        s <= f <==> x < (f + 1) * (f + 1),
{
    if s <= f {
        assert(x < (f + 1) * (f + 1)) by (nonlinear_arith)
            requires
                x < (s + 1) * (s + 1),
                0 <= s <= f,
        ;
    }
    if x < (f + 1) * (f + 1) {
        assert(s <= f) by (nonlinear_arith)
            requires
                s * s <= x,
                x < (f + 1) * (f + 1),
                s >= 0,
                f >= 0,
        ;
    }
}

/// Deposit a pair of amounts for newly minted LP tokens; returns
/// `(lp_minted, used_a, used_b)`.
///
/// Bootstrap (`lp_supply == 0`): mints `floor(sqrt(amount_a * amount_b))`
/// minus the permanently locked liquidity floor, and consumes both amounts in
/// full; fails unless the minted amount is strictly positive.
///
/// Otherwise: mints the smaller of the two claim ratios; the side with the
/// larger ratio is charged only the ceiling of its proportional share, so a
/// depositor is never charged more than the minted claim justifies, and the
/// pool is never credited less (`used * lp_supply >= lp_minted * reserve`).
pub fn deposit(
    amount_a: u64,
    amount_b: u64,
    reserve_a: u64,
    reserve_b: u64,
    lp_supply: u64,
    min_liquidity_floor: u64,
) -> (r: Result<(u64, u64, u64), AmmError>)
    ensures
        (match r {
            Ok((lp, used_a, used_b)) => {
                if lp_supply == 0 {
                    &&& amount_a as int * amount_b as int >= (min_liquidity_floor + 1) * (
                    min_liquidity_floor + 1)
                    &&& is_floor_sqrt(
                        lp + min_liquidity_floor,
                        amount_a as int * amount_b as int,
                    )
                    &&& lp >= 1
                    &&& used_a == amount_a
                    &&& used_b == amount_b
                } else {
                    &&& reserve_a > 0
                    &&& reserve_b > 0
                    &&& lp as int == lp_due(
                        amount_a as int,
                        amount_b as int,
                        reserve_a as int,
                        reserve_b as int,
                        lp_supply as int,
                    )
                    &&& (deposit_ratio(amount_a as int, lp_supply as int, reserve_a as int)
                        <= deposit_ratio(amount_b as int, lp_supply as int, reserve_b as int)
                        ==> used_a == amount_a && used_b as int == charge_for_lp(
                        lp as int,
                        reserve_b as int,
                        lp_supply as int,
                    ))
                    &&& (deposit_ratio(amount_a as int, lp_supply as int, reserve_a as int)
                        > deposit_ratio(amount_b as int, lp_supply as int, reserve_b as int)
                        ==> used_b == amount_b && used_a as int == charge_for_lp(
                        lp as int,
                        reserve_a as int,
                        lp_supply as int,
                    ))
                    &&& used_a <= amount_a
                    &&& used_b <= amount_b
                    &&& used_a as int * lp_supply as int >= lp as int * reserve_a as int
                    &&& used_b as int * lp_supply as int >= lp as int * reserve_b as int
                }
            },
            Err(e) => {
                if lp_supply == 0 {
                    &&& e == AmmError::InsufficientLiquidity
                    &&& (min_liquidity_floor + 1) * (min_liquidity_floor + 1) > amount_a as int
                        * amount_b as int
                } else {
                    &&& e == AmmError::ArithmeticError
                    &&& (reserve_a == 0 || reserve_b == 0 || lp_due(
                        amount_a as int,
                        amount_b as int,
                        reserve_a as int,
                        reserve_b as int,
                        lp_supply as int,
                    ) > u64::MAX)
                }
            },
        }),
{
    if lp_supply == 0 {
        proof {
            assert(amount_a as u128 * amount_b as u128 <= u128::MAX) by (nonlinear_arith)
                requires
                    amount_a < 18446744073709551616u128,
                    amount_b < 18446744073709551616u128,
            ;
        }
        let s = isqrt_u128(amount_a as u128 * amount_b as u128);
        proof {
            lemma_floor_sqrt_le_bound(
                s as int,
                amount_a as int * amount_b as int,
                min_liquidity_floor as int,
            );
        }
        if s <= min_liquidity_floor {
            return Err(AmmError::InsufficientLiquidity);
        }
        return Ok((s - min_liquidity_floor, amount_a, amount_b));
    }
    if reserve_a == 0 || reserve_b == 0 {
        return Err(AmmError::ArithmeticError);
    }
    let a: u128 = amount_a as u128;
    let b: u128 = amount_b as u128;
    let ra: u128 = reserve_a as u128;
    let rb: u128 = reserve_b as u128;
    let sup: u128 = lp_supply as u128;
    proof {
        assert(a * sup <= u128::MAX && b * sup <= u128::MAX) by (nonlinear_arith)
            requires
                a < 18446744073709551616,
                b < 18446744073709551616,
                sup < 18446744073709551616,
        ;
    }
    let ratio_a = div_floor_u128(a * sup, ra);
    let ratio_b = div_floor_u128(b * sup, rb);
    if ratio_a <= ratio_b {
        if ratio_a > 0xffff_ffff_ffff_ffffu128 {
            return Err(AmmError::ArithmeticError);
        }
        let lp = ratio_a;
        proof {
            assert(lp * rb < u128::MAX) by (nonlinear_arith)
                requires
                    lp < 18446744073709551616,
                    rb < 18446744073709551616,
            ;
            lemma_fundamental_div_mod(b as int * sup as int, rb as int);
            lemma_mod_division_less_than_divisor(b as int * sup as int, rb as int);
            assert(lp as int * rb as int <= b as int * sup as int) by (nonlinear_arith)
                requires
                    lp as int <= ratio_b as int,
                    b as int * sup as int == rb as int * ratio_b as int + (b as int * sup as int) % (
                    rb as int),
                    (b as int * sup as int) % (rb as int) >= 0,
                    rb as int > 0,
                    lp as int >= 0,
            ;
            lemma_div_ceil_bounded(lp as int * rb as int, sup as int, b as int);
            lemma_div_ceil_covers(lp as int * rb as int, sup as int);
            // The side kept in full also covers its proportional share.
            lemma_fundamental_div_mod(a as int * sup as int, ra as int);
            lemma_mod_division_less_than_divisor(a as int * sup as int, ra as int);
            assert(a as int * sup as int >= lp as int * ra as int) by (nonlinear_arith)
                requires
                    lp as int == ratio_a as int,
                    a as int * sup as int == ra as int * ratio_a as int + (a as int * sup as int) % (
                    ra as int),
                    (a as int * sup as int) % (ra as int) >= 0,
                    ra as int > 0,
            ;
        }
        let used_b = div_ceil_u128(lp * rb, sup);
        Ok((lp as u64, amount_a, used_b as u64))
    } else {
        if ratio_b > 0xffff_ffff_ffff_ffffu128 {
            return Err(AmmError::ArithmeticError);
        }
        let lp = ratio_b;
        proof {
            assert(lp * ra < u128::MAX) by (nonlinear_arith)
                requires
                    lp < 18446744073709551616,
                    ra < 18446744073709551616,
            ;
            lemma_fundamental_div_mod(a as int * sup as int, ra as int);
            lemma_mod_division_less_than_divisor(a as int * sup as int, ra as int);
            assert(lp as int * ra as int <= a as int * sup as int) by (nonlinear_arith)
                requires
                    lp as int <= ratio_a as int,
                    a as int * sup as int == ra as int * ratio_a as int + (a as int * sup as int) % (
                    ra as int),
                    (a as int * sup as int) % (ra as int) >= 0,
                    ra as int > 0,
                    lp as int >= 0,
            ;
            lemma_div_ceil_bounded(lp as int * ra as int, sup as int, a as int);
            lemma_div_ceil_covers(lp as int * ra as int, sup as int);
            lemma_fundamental_div_mod(b as int * sup as int, rb as int);
            lemma_mod_division_less_than_divisor(b as int * sup as int, rb as int);
            assert(b as int * sup as int >= lp as int * rb as int) by (nonlinear_arith)
                requires
                    lp as int == ratio_b as int,
                    b as int * sup as int == rb as int * ratio_b as int + (b as int * sup as int) % (
                    rb as int),
                    (b as int * sup as int) % (rb as int) >= 0,
                    rb as int > 0,
            ;
        }
        let used_a = div_ceil_u128(lp * ra, sup);
        Ok((lp as u64, used_a as u64, amount_b))
    }
}

/// One reserve's proportional payout for burning `lp_amount` claim tokens:
/// `floor(reserve * lp_amount / lp_supply)`.
pub open spec fn withdraw_out(reserve: int, lp_amount: int, lp_supply: int) -> int
    recommends
        lp_supply > 0,
{
    reserve * lp_amount / lp_supply
}

/// Burn `lp_amount` claim tokens for a proportional share of both reserves;
/// returns `(out_a, out_b)`.
///
/// Fails with a state error whenever the burn would drive the LP supply below
/// `min_liquidity_floor` (callers pass the floor only while the pool must
/// keep it). Both payouts round down, never above the exact proportional
/// share: `out * lp_supply <= reserve * lp_amount`.
pub fn withdraw(
    lp_amount: u64,
    lp_supply: u64,
    reserve_a: u64,
    reserve_b: u64,
    min_liquidity_floor: u64,
) -> (r: Result<(u64, u64), AmmError>)
    ensures
        (match r {
            Ok((out_a, out_b)) => {
                &&& lp_amount + min_liquidity_floor <= lp_supply
                &&& lp_supply > 0
                &&& out_a as int == withdraw_out(reserve_a as int, lp_amount as int, lp_supply as int)
                &&& out_b as int == withdraw_out(reserve_b as int, lp_amount as int, lp_supply as int)
                &&& out_a <= reserve_a
                &&& out_b <= reserve_b
                &&& out_a as int * lp_supply as int <= reserve_a as int * lp_amount as int
                &&& out_b as int * lp_supply as int <= reserve_b as int * lp_amount as int
            },
            Err(e) => {
                if lp_amount + min_liquidity_floor > lp_supply {
                    e == AmmError::StateError
                } else {
                    &&& e == AmmError::ArithmeticError
                    &&& lp_supply == 0
                }
            },
        }),
{
    if lp_amount > lp_supply {
        return Err(AmmError::StateError);
    }
    if lp_supply - lp_amount < min_liquidity_floor {
        return Err(AmmError::StateError);
    }
    if lp_supply == 0 {
        return Err(AmmError::ArithmeticError);
    }
    let lp: u128 = lp_amount as u128;
    let sup: u128 = lp_supply as u128;
    let ra: u128 = reserve_a as u128;
    let rb: u128 = reserve_b as u128;
    proof {
        assert(ra * lp <= u128::MAX && rb * lp <= u128::MAX) by (nonlinear_arith)
            requires
                ra < 18446744073709551616,
                rb < 18446744073709551616,
                lp < 18446744073709551616,
        ;
    }
    let out_a = div_floor_u128(ra * lp, sup);
    let out_b = div_floor_u128(rb * lp, sup);
    proof {
        lemma_fundamental_div_mod(ra as int * lp as int, sup as int);
        lemma_mod_division_less_than_divisor(ra as int * lp as int, sup as int);
        assert(out_a as int * sup as int <= ra as int * lp as int && out_a <= ra)
            by (nonlinear_arith)
            requires
                ra as int * lp as int == sup as int * (out_a as int) + (ra as int * lp as int) % (
                sup as int),
                (ra as int * lp as int) % (sup as int) >= 0,
                sup as int > 0,
                lp as int <= sup as int,
                ra as int >= 0,
        ;
        lemma_fundamental_div_mod(rb as int * lp as int, sup as int);
        lemma_mod_division_less_than_divisor(rb as int * lp as int, sup as int);
        assert(out_b as int * sup as int <= rb as int * lp as int && out_b <= rb)
            by (nonlinear_arith)
            requires
                rb as int * lp as int == sup as int * (out_b as int) + (rb as int * lp as int) % (
                sup as int),
                (rb as int * lp as int) % (sup as int) >= 0,
                sup as int > 0,
                lp as int <= sup as int,
                rb as int >= 0,
        ;
    }
    Ok((out_a as u64, out_b as u64))
}

/// With the fee fraction in [0, 1], the fee never exceeds the input, so the
/// net input is a value between zero and the input.
pub proof fn lemma_fee_bounds(amount_in: int, fee_num: int, fee_den: int)
    requires
        amount_in >= 0,
        0 <= fee_num <= fee_den,
        fee_den > 0,
    ensures
        0 <= fee_amount(amount_in, fee_num, fee_den) <= amount_in,
        0 <= net_input(amount_in, fee_num, fee_den) <= amount_in,
{
    lemma_mul_nonnegative(amount_in, fee_num);
    lemma_div_pos_is_pos(amount_in * fee_num, fee_den);
    assert(amount_in * fee_num <= amount_in * fee_den) by (nonlinear_arith)
        requires
            amount_in >= 0,
            fee_num <= fee_den,
    ;
    lemma_div_is_ordered(amount_in * fee_num, amount_in * fee_den, fee_den);
    lemma_div_multiples_vanish(amount_in, fee_den);
    assert(amount_in * fee_den == fee_den * amount_in) by (nonlinear_arith);
}

/// The proceeds of swapping `amount_in` and then immediately swapping the
/// whole output back for the original asset.
pub open spec fn round_trip_output(
    amount_in: int,
    reserve_in: int,
    reserve_out: int,
    fee_num: int,
    fee_den: int,
) -> int {
    let out1 = swap_output(amount_in, reserve_in, reserve_out, fee_num, fee_den);
    let net1 = net_input(amount_in, fee_num, fee_den);
    swap_output(out1, reserve_out - out1, reserve_in + net1, fee_num, fee_den)
}

/// The divisor of the return leg of a round trip: the depleted output-side
/// reserve plus the net proceeds swapped back.
pub open spec fn round_trip_return_divisor(
    amount_in: int,
    reserve_in: int,
    reserve_out: int,
    fee_num: int,
    fee_den: int,
) -> int {
    let out1 = swap_output(amount_in, reserve_in, reserve_out, fee_num, fee_den);
    reserve_out - out1 + net_input(out1, fee_num, fee_den)
}

/// Round-trip bound: swapping `amount_in` of one asset for the other and
/// immediately swapping the entire proceeds back never returns more than
/// `amount_in` — indeed never more than the first leg's net input — and
/// whenever the first leg charges a positive fee, the trader takes a strict
/// loss. Equality is possible only when the fee charged is zero.
pub proof fn lemma_round_trip(
    amount_in: int,
    reserve_in: int,
    reserve_out: int,
    fee_num: int,
    fee_den: int,
)
    requires
        amount_in >= 0,
        reserve_in >= 0,
        reserve_out >= 0,
        0 <= fee_num < fee_den,
        reserve_in + net_input(amount_in, fee_num, fee_den) > 0,
        round_trip_return_divisor(amount_in, reserve_in, reserve_out, fee_num, fee_den) > 0,
    ensures
        round_trip_output(amount_in, reserve_in, reserve_out, fee_num, fee_den) <= net_input(
            amount_in,
            fee_num,
            fee_den,
        ),
        round_trip_output(amount_in, reserve_in, reserve_out, fee_num, fee_den) <= amount_in,
        fee_amount(amount_in, fee_num, fee_den) >= 1 ==> round_trip_output(
            amount_in,
            reserve_in,
            reserve_out,
            fee_num,
            fee_den,
        ) < amount_in,
{
    let n1 = net_input(amount_in, fee_num, fee_den);
    let d1 = reserve_in + n1;
    let out1 = swap_output(amount_in, reserve_in, reserve_out, fee_num, fee_den);
    lemma_fee_bounds(amount_in, fee_num, fee_den);
    lemma_mul_nonnegative(reserve_out, n1);
    lemma_div_pos_is_pos(reserve_out * n1, d1);
    lemma_fundamental_div_mod(reserve_out * n1, d1);
    lemma_mod_division_less_than_divisor(reserve_out * n1, d1);
    // The first leg's floor division leaves the curve no worse off.
    assert(out1 * reserve_in <= n1 * (reserve_out - out1)) by (nonlinear_arith)
        requires
            reserve_out * n1 == d1 * out1 + (reserve_out * n1) % d1,
            (reserve_out * n1) % d1 >= 0,
            d1 == reserve_in + n1,
    ;
    let n2 = net_input(out1, fee_num, fee_den);
    let d2 = reserve_out - out1 + n2;
    let out2 = round_trip_output(amount_in, reserve_in, reserve_out, fee_num, fee_den);
    lemma_fee_bounds(out1, fee_num, fee_den);
    lemma_mul_nonnegative(d1, n2);
    lemma_div_pos_is_pos(d1 * n2, d2);
    lemma_fundamental_div_mod(d1 * n2, d2);
    lemma_mod_division_less_than_divisor(d1 * n2, d2);
    assert(out2 * d2 <= d1 * n2) by (nonlinear_arith)
        requires
            d1 * n2 == d2 * out2 + (d1 * n2) % d2,
            (d1 * n2) % d2 >= 0,
    ;
    // The proceeds swapped back support at most the first leg's net input.
    assert(d1 * n2 <= n1 * d2) by (nonlinear_arith)
        requires
            d1 == reserve_in + n1,
            d2 == reserve_out - out1 + n2,
            out1 * reserve_in <= n1 * (reserve_out - out1),
            0 <= n2 <= out1,
            reserve_in >= 0,
    ;
    assert(out2 <= n1) by (nonlinear_arith)
        requires
            out2 * d2 <= n1 * d2,
            d2 > 0,
    ;
}

} // verus!
