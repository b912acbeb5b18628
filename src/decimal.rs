//! Fixed-point decimal arithmetic.
//!
//! Prices, quantities, notionals and rates are all held as `u64` counts of
//! `1 / SCALE` units: `80.5` is `8_050_000_000` and a rate of 5% is `5_000_000`.
//! Every operation here is exact integer arithmetic; results that would leave
//! `u64` are reported as `None` rather than wrapped.

use vstd::prelude::*;

verus! {

/// Number of fixed-point units in one whole unit (eight decimal places).
pub const SCALE: u64 = 100_000_000;

/// `a * b / d`, rounded toward zero, over the integers.
pub open spec fn scaled(a: int, b: int, d: int) -> int {
    (a * b) / d
}

/// `Some` of the value when it fits in a `u64`, `None` otherwise.
pub open spec fn fit(v: int) -> Option<u64> {
    if 0 <= v <= u64::MAX {
        Some(v as u64)
    } else {
        None
    }
}

/// `quantity` rounded down to a whole number of `step` units.
pub open spec fn normalized(quantity: int, step: int) -> int {
    (quantity / step) * step
}

/// Computes `a * b / d` (rounded toward zero), or `None` when it exceeds `u64`.
pub fn mul_div(a: u64, b: u64, d: u64) -> (r: Option<u64>)
    requires
        d > 0,
    ensures
        r == fit(scaled(a as int, b as int, d as int)),
{
    proof {
        assert((a as int) * (b as int) <= (u64::MAX as int) * (u64::MAX as int)) by (nonlinear_arith)
            requires
                a <= u64::MAX,
                b <= u64::MAX,
        ;
    }
    let wide: u128 = (a as u128) * (b as u128);
    let q: u128 = wide / (d as u128);
    proof {
        assert(0 <= (a as int) * (b as int)) by (nonlinear_arith);
        assert(q as int == scaled(a as int, b as int, d as int));
    }
    if q <= u64::MAX as u128 {
        Some(q as u64)
    } else {
        None
    }
}


/// A quantity after a proportional fee of `rate` (in `1 / SCALE` units) is taken.
pub open spec fn fee_adjusted(quantity: int, rate: int) -> int {
    scaled(quantity, SCALE - rate, SCALE as int)
}

/// A price moved by a signed proportional `offset`: `price * (1 + offset)`.
pub open spec fn offset_price(price: int, offset: int) -> int {
    scaled(price, SCALE + offset, SCALE as int)
}

/// The quantity that `notional` buys at `price`.
pub open spec fn quantity_for(notional: int, price: int) -> int {
    scaled(notional, SCALE as int, price)
}

/// The value of `quantity` at `price`.
pub open spec fn notional_of(price: int, quantity: int) -> int {
    scaled(price, quantity, SCALE as int)
}

/// Rounds `quantity` down to a whole number of `step_size` units
/// (truncation toward zero, never rounding up).
pub fn normalize(quantity: u64, step_size: u64) -> (r: u64)
    requires
        step_size > 0,
    ensures
        r == normalized(quantity as int, step_size as int),
{
    proof {
        normalized_within(quantity as int, step_size as int);
    }
    (quantity / step_size) * step_size
}

/// Takes the trading fee off a sell quantity: `quantity * (1 - rate)`, rounded down.
pub fn apply_fee(quantity: u64, rate: u64) -> (r: u64)
    requires
        rate <= SCALE,
    ensures
        r == fee_adjusted(quantity as int, rate as int),
        r <= quantity,
{
    proof {
        fee_within_quantity(quantity as int, rate as int);
    }
    match mul_div(quantity, SCALE - rate, SCALE) {
        Some(v) => v,
        None => quantity,
    }
}

/// `price * (1 + offset)` for a signed offset above -100%,
/// or `None` when the result exceeds `u64`.
pub fn apply_offset(price: u64, offset: i64) -> (r: Option<u64>)
    requires
        offset > -(SCALE as int),
    ensures
        r == fit(offset_price(price as int, offset as int)),
{
    let factor: u64 = if offset >= 0 {
        SCALE + offset as u64
    } else {
        SCALE - ((-(offset as i128)) as u64)
    };
    assert(factor as int == SCALE + offset);
    mul_div(price, factor, SCALE)
}

/// The quantity that `notional` buys at `price`, or `None` when it exceeds `u64`.
pub fn quantity_for_notional(notional: u64, price: u64) -> (r: Option<u64>)
    requires
        price > 0,
    ensures
        r == fit(quantity_for(notional as int, price as int)),
{
    mul_div(notional, SCALE, price)
}

/// The value of `quantity` at `price`, or `None` when it exceeds `u64`.
pub fn notional(price: u64, quantity: u64) -> (r: Option<u64>)
    ensures
        r == fit(notional_of(price as int, quantity as int)),
{
    mul_div(price, quantity, SCALE)
}

/// A normalized non-negative quantity stays between zero and the quantity
/// and is a whole number of steps.
pub proof fn normalized_within(q: int, s: int)
    requires
        q >= 0,
        s > 0,
    ensures
        0 <= normalized(q, s) <= q,
        normalized(q, s) % s == 0,
{
    vstd::arithmetic::div_mod::lemma_fundamental_div_mod(q, s);
    vstd::arithmetic::div_mod::lemma_mod_multiples_basic(q / s, s);
    vstd::arithmetic::div_mod::lemma_div_pos_is_pos(q, s);
    vstd::arithmetic::mul::lemma_mul_nonnegative(q / s, s);
    assert((q / s) * s == s * (q / s)) by (nonlinear_arith);
}

/// The fee-adjusted quantity stays between zero and the quantity, and is
/// below it when both the quantity and the rate are positive.
pub proof fn fee_within_quantity(q: int, rate: int)
    requires
        q >= 0,
        0 <= rate <= SCALE,
    ensures
        0 <= fee_adjusted(q, rate) <= q,
        rate > 0 && q > 0 ==> fee_adjusted(q, rate) < q,
{
    let m = SCALE as int;
    assert(0 <= q * (m - rate) <= q * m) by (nonlinear_arith)
        requires
            q >= 0,
            0 <= rate <= m,
    ;
    vstd::arithmetic::div_mod::lemma_div_is_ordered(q * (m - rate), q * m, m);
    vstd::arithmetic::div_mod::lemma_div_multiples_vanish(q, m);
    vstd::arithmetic::div_mod::lemma_div_pos_is_pos(q * (m - rate), m);
    if rate > 0 && q > 0 {
        assert(q * (m - rate) <= q * m - q) by (nonlinear_arith)
            requires
                q > 0,
                rate >= 1,
        ;
        vstd::arithmetic::div_mod::lemma_fundamental_div_mod(q * (m - rate), m);
        assert(q * (m - rate) / m * m <= q * (m - rate)) by {
            vstd::arithmetic::div_mod::lemma_mod_pos_bound(q * (m - rate), m);
        }
        assert(q * (m - rate) / m < q) by (nonlinear_arith)
            requires
                q * (m - rate) / m * m <= q * (m - rate),
                q * (m - rate) <= q * m - q,
                q > 0,
                m > 0,
        ;
    }
}

/// Normalization never increases a quantity, always lands on a whole number of
/// steps, and normalizing an already normalized quantity leaves it unchanged.
pub proof fn normalize_law(quantity: u64, step_size: u64)
    requires
        step_size > 0,
    ensures
        normalized(quantity as int, step_size as int) <= quantity,
        normalized(quantity as int, step_size as int) % (step_size as int) == 0,
        normalized(normalized(quantity as int, step_size as int), step_size as int)
            == normalized(quantity as int, step_size as int),
{
    let q = quantity as int;
    let s = step_size as int;
    normalized_within(q, s);
    let n = normalized(q, s);
    vstd::arithmetic::div_mod::lemma_div_multiples_vanish(q / s, s);
    assert(n / s == q / s) by {
        assert(n == s * (q / s)) by (nonlinear_arith)
            requires
                n == (q / s) * s,
        ;
    }
}

/// With a positive fee rate the fee-adjusted quantity of a non-empty sell
/// order is strictly smaller than the quantity requested.
pub proof fn fee_law(quantity: u64, rate: u64)
    requires
        quantity > 0,
        0 < rate <= SCALE,
    ensures
        fee_adjusted(quantity as int, rate as int) < quantity,
{
    fee_within_quantity(quantity as int, rate as int);
}

} // verus!
