use vstd::prelude::*;

use crate::error::DexError;

verus! {

/// Fee rates are expressed in basis points: units of 1/10_000.
pub const BPS_DENOMINATOR: u64 = 10_000;

/// What a saturating `u64` operation yields: the exact value while it fits,
/// `u64::MAX` once it overflows.
pub open spec fn sat_u64(x: int) -> int {
    if x > u64::MAX as int {
        u64::MAX as int
    } else {
        x
    }
}

/// The portion of the input that reaches the pool after the fee is deducted:
/// `floor(amount_in * (10_000 - fee_bps) / 10_000)`, the multiplication
/// saturating at `u64::MAX`.
pub open spec fn after_fee(amount_in: u64, fee_bps: u16) -> int
    recommends
        fee_bps < BPS_DENOMINATOR,
{
    sat_u64(amount_in as int * (BPS_DENOMINATOR as int - fee_bps as int)) / (BPS_DENOMINATOR as int)
}

/// The constant-product quote: the fee-adjusted input is applied to the
/// invariant `x * y = k`, so the output is
/// `floor(net_in * reserve_out / (reserve_in + net_in))`, multiplication and
/// addition saturating at `u64::MAX`.
pub open spec fn quote(amount_in: u64, reserve_in: u64, reserve_out: u64, fee_bps: u16) -> int
    recommends
        fee_bps < BPS_DENOMINATOR,
        reserve_in > 0,
{
    sat_u64(after_fee(amount_in, fee_bps) * reserve_out as int)
        / sat_u64(reserve_in as int + after_fee(amount_in, fee_bps))
}

/// Prices a trade of `amount_in` against the given reserves. Rejects an empty
/// pool: both reserves must be strictly positive, else `InvalidAmount`. On
/// success the result is exactly the fee-adjusted constant-product quote.
pub fn compute_constant_product_quote(
    amount_in: u64,
    reserve_in: u64,
    reserve_out: u64,
    fee_bps: u16,
) -> (r: Result<u64, DexError>)
    requires
        fee_bps < BPS_DENOMINATOR,
    ensures
        r is Ok <==> (reserve_in > 0 && reserve_out > 0),
        r is Err ==> r == Err::<u64, DexError>(DexError::InvalidAmount),
        r is Ok ==> r->Ok_0 as int == quote(amount_in, reserve_in, reserve_out, fee_bps),
{
    if reserve_in == 0 || reserve_out == 0 {
        return Err(DexError::InvalidAmount);
    }

    let fee_factor: u64 = BPS_DENOMINATOR - (fee_bps as u64);
    proof {
        assert(amount_in as int * fee_factor as int <= u128::MAX as int) by (nonlinear_arith)
            requires
                amount_in as int <= u64::MAX as int,
                fee_factor as int <= u64::MAX as int;
    }
    let scaled: u128 = (amount_in as u128) * (fee_factor as u128);
    let scaled_sat: u128 = if scaled > (u64::MAX as u128) {
        u64::MAX as u128
    } else {
        scaled
    };
    let net_in_wide: u128 = scaled_sat / (BPS_DENOMINATOR as u128);
    assert(net_in_wide <= scaled_sat) by (nonlinear_arith)
        requires net_in_wide == scaled_sat / (BPS_DENOMINATOR as u128) && scaled_sat <= u128::MAX;
    let net_in: u64 = net_in_wide as u64;
    assert(net_in as int == after_fee(amount_in, fee_bps));

    proof {
        assert(net_in as int * reserve_out as int <= u128::MAX as int) by (nonlinear_arith)
            requires
                net_in as int <= u64::MAX as int,
                reserve_out as int <= u64::MAX as int;
    }
    let numerator_full: u128 = (net_in as u128) * (reserve_out as u128);
    let numerator: u128 = if numerator_full > (u64::MAX as u128) {
        u64::MAX as u128
    } else {
        numerator_full
    };
    let denominator: u128 = {
        let denominator_full: u128 = (reserve_in as u128) + (net_in as u128);
        if denominator_full > (u64::MAX as u128) {
            u64::MAX as u128
        } else {
            denominator_full
        }
    };
    assert(denominator >= 1);
    let out_wide: u128 = numerator / denominator;
    assert(out_wide <= numerator) by (nonlinear_arith)
        requires out_wide == numerator / denominator && denominator >= 1 && numerator <= u128::MAX;
    let out: u64 = out_wide as u64;
    assert(out as int == quote(amount_in, reserve_in, reserve_out, fee_bps));
    Ok(out)
}

/// Division respects cross-multiplied ordering: when `n1 * d2 <= n2 * d1`
/// with positive divisors, the integer quotients are ordered the same way.
proof fn lemma_div_cross_ordered(n1: int, d1: int, n2: int, d2: int)
    requires
        0 <= n1,
        0 <= n2,
        1 <= d1,
        1 <= d2,
        n1 * d2 <= n2 * d1,
    ensures
        n1 / d1 <= n2 / d2,
{
    let q1 = n1 / d1;
    let q2 = n2 / d2;
    vstd::arithmetic::div_mod::lemma_fundamental_div_mod(n1, d1);
    vstd::arithmetic::div_mod::lemma_fundamental_div_mod(n2, d2);
    vstd::arithmetic::div_mod::lemma_div_pos_is_pos(n1, d1);
    vstd::arithmetic::div_mod::lemma_mod_bound(n1, d1);
    vstd::arithmetic::div_mod::lemma_mod_bound(n2, d2);
    assert(q1 * d2 <= n2) by (nonlinear_arith)
        requires
            n1 == d1 * q1 + (n1 % d1),
            0 <= n1 % d1,
            n1 * d2 <= n2 * d1,
            1 <= d1,
            1 <= d2,
            0 <= q1;
    assert(q1 <= q2) by (nonlinear_arith)
        requires
            q1 * d2 <= n2,
            n2 == d2 * q2 + (n2 % d2),
            n2 % d2 < d2,
            1 <= d2;
}

/// The fee-adjusted input is non-negative, and non-decreasing in the raw
/// input: deducting a fixed fee rate never turns a larger trade into a
/// smaller net contribution.
pub proof fn lemma_after_fee_monotonic(a1: u64, a2: u64, fee_bps: u16)
    requires
        (fee_bps as u64) < BPS_DENOMINATOR,
        a1 <= a2,
    ensures
        0 <= after_fee(a1, fee_bps),
        after_fee(a1, fee_bps) <= after_fee(a2, fee_bps),
{
    let ff = BPS_DENOMINATOR as int - fee_bps as int;
    assert(0 <= a1 as int * ff && a1 as int * ff <= a2 as int * ff) by (nonlinear_arith)
        requires
            0 <= a1 as int,
            a1 as int <= a2 as int,
            0 < ff;
    vstd::arithmetic::div_mod::lemma_div_is_ordered(
        sat_u64(a1 as int * ff),
        sat_u64(a2 as int * ff),
        BPS_DENOMINATOR as int,
    );
    vstd::arithmetic::div_mod::lemma_div_pos_is_pos(sat_u64(a1 as int * ff), BPS_DENOMINATOR as int);
}

/// The quote never exceeds the destination-side reserve: the pool can always
/// cover the output it promises, including in the saturated regime.
pub proof fn lemma_quote_le_reserve_out(amount_in: u64, reserve_in: u64, reserve_out: u64, fee_bps: u16)
    requires
        (fee_bps as u64) < BPS_DENOMINATOR,
        reserve_in > 0,
        reserve_out > 0,
    ensures
        0 <= quote(amount_in, reserve_in, reserve_out, fee_bps),
        quote(amount_in, reserve_in, reserve_out, fee_bps) <= reserve_out,
{
    lemma_after_fee_monotonic(amount_in, amount_in, fee_bps);
    let af = after_fee(amount_in, fee_bps);
    let n = sat_u64(af * reserve_out as int);
    let d = sat_u64(reserve_in as int + af);
    let q = quote(amount_in, reserve_in, reserve_out, fee_bps);
    assert(0 <= af * reserve_out as int) by (nonlinear_arith)
        requires
            0 <= af,
            0 < reserve_out as int;
    vstd::arithmetic::div_mod::lemma_div_pos_is_pos(n, d);
    if reserve_in as int + af > u64::MAX as int {
        // The denominator saturated, so it is at least as large as the
        // saturated numerator and the quote is at most 1.
        vstd::arithmetic::div_mod::lemma_div_is_ordered(n, d, d);
        vstd::arithmetic::div_mod::lemma_div_by_self(d);
        assert(q <= 1);
    } else {
        assert(n <= af * reserve_out as int);
        vstd::arithmetic::div_mod::lemma_remainder_lower(n, d);
        assert(q * d <= n);
        assert(q <= reserve_out as int - 1) by (nonlinear_arith)
            requires
                q * d <= af * reserve_out as int,
                d == reserve_in as int + af,
                1 <= reserve_in as int,
                0 <= af,
                1 <= reserve_out as int,
                0 <= q;
    }
}

/// Quote monotonicity: with the reserves and the fee fixed, and the
/// arithmetic below the saturation threshold, a larger input never buys a
/// smaller output.
pub proof fn lemma_quote_monotonic(a1: u64, a2: u64, reserve_in: u64, reserve_out: u64, fee_bps: u16)
    requires
        (fee_bps as u64) < BPS_DENOMINATOR,
        reserve_in > 0,
        reserve_out > 0,
        a1 <= a2,
        after_fee(a2, fee_bps) * (reserve_out as int) <= u64::MAX as int,
        reserve_in as int + after_fee(a2, fee_bps) <= u64::MAX as int,
    ensures
        quote(a1, reserve_in, reserve_out, fee_bps) <= quote(a2, reserve_in, reserve_out, fee_bps),
{
    lemma_after_fee_monotonic(a1, a2, fee_bps);
    let f1 = after_fee(a1, fee_bps);
    let f2 = after_fee(a2, fee_bps);
    let ri = reserve_in as int;
    let ro = reserve_out as int;
    assert(0 <= f1 * ro && f1 * ro <= f2 * ro) by (nonlinear_arith)
        requires
            0 <= f1,
            f1 <= f2,
            0 < ro;
    assert((f1 * ro) * (ri + f2) <= (f2 * ro) * (ri + f1)) by (nonlinear_arith)
        requires
            0 <= f1,
            f1 <= f2,
            0 < ro,
            0 < ri;
    lemma_div_cross_ordered(f1 * ro, ri + f1, f2 * ro, ri + f2);
}

/// Fee non-negativity of pool value: below the saturation threshold, the
/// post-trade product `(reserve_in + net_in) * (reserve_out - output)` never
/// falls below the pre-trade product `reserve_in * reserve_out`. Rounding
/// the output down only ever leaves more value in the pool, and by less than
/// one denominator's worth: the products agree up to that rounding loss, so
/// with a zero fee the invariant is preserved exactly in the rational sense.
pub proof fn lemma_pool_product_non_decreasing(
    amount_in: u64,
    reserve_in: u64,
    reserve_out: u64,
    fee_bps: u16,
)
    requires
        (fee_bps as u64) < BPS_DENOMINATOR,
        reserve_in > 0,
        reserve_out > 0,
        after_fee(amount_in, fee_bps) * (reserve_out as int) <= u64::MAX as int,
        reserve_in as int + after_fee(amount_in, fee_bps) <= u64::MAX as int,
    ensures
        (reserve_in as int + after_fee(amount_in, fee_bps))
            * (reserve_out as int - quote(amount_in, reserve_in, reserve_out, fee_bps))
            >= (reserve_in as int) * (reserve_out as int),
        (reserve_in as int + after_fee(amount_in, fee_bps))
            * (reserve_out as int - quote(amount_in, reserve_in, reserve_out, fee_bps))
            < (reserve_in as int) * (reserve_out as int) + (reserve_in as int + after_fee(
            amount_in,
            fee_bps,
        )),
{
    lemma_after_fee_monotonic(amount_in, amount_in, fee_bps);
    let af = after_fee(amount_in, fee_bps);
    let ri = reserve_in as int;
    let ro = reserve_out as int;
    let q = quote(amount_in, reserve_in, reserve_out, fee_bps);
    assert(0 <= af * ro) by (nonlinear_arith)
        requires
            0 <= af,
            0 < ro;
    assert(q == (af * ro) / (ri + af));
    vstd::arithmetic::div_mod::lemma_remainder_lower(af * ro, ri + af);
    assert(q * (ri + af) <= af * ro);
    assert((ri + af) * (ro - q) >= ri * ro) by (nonlinear_arith)
        requires
            q * (ri + af) <= af * ro,
            0 <= af,
            0 < ri,
            0 < ro;
    vstd::arithmetic::div_mod::lemma_fundamental_div_mod(af * ro, ri + af);
    vstd::arithmetic::div_mod::lemma_mod_bound(af * ro, ri + af);
    assert((ri + af) * (ro - q) < ri * ro + (ri + af)) by (nonlinear_arith)
        requires
            af * ro == (ri + af) * q + (af * ro) % (ri + af),
            (af * ro) % (ri + af) < ri + af,
            0 <= af,
            0 < ri,
            0 < ro;
}

} // verus!

