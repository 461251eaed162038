//! Pure invariant math of the pool.
//!
//! Stateless, deterministic integer functions: integer square root,
//! constant-product swap output, proportional liquidity minting and
//! proportional liquidity burning. Every division is floor division, and
//! every product is carried at double width, so a formula fails only
//! when a value that must be stored leaves the 128-bit range, never on
//! an intermediate. The pool never rounds in the user's favor; the one
//! deliberate exception is the `+ 1` on the opposite-side amount of a
//! liquidity provision, which makes the pool over-collect rather than
//! under-collect.

use vstd::prelude::*;
use vstd::arithmetic::div_mod::{
    lemma_div_is_ordered, lemma_div_multiples_vanish, lemma_fundamental_div_mod, lemma_remainder,
};

use crate::errors::PoolError;
use crate::wide;

verus! {

/// Two to the sixty-fourth power: any square root of a 128-bit value lies
/// strictly below it, except for the root of values at or above its square.
pub const SQRT_BOUND: u128 = 18446744073709551616;

/// The retained fraction of a swap input, in parts per thousand.
pub open spec fn spec_rate(swap_fee: int) -> int {
    1000 - swap_fee
}

/// The constant-product swap output:
/// `rate * amount * to_pool / (1000 * from_pool + rate * amount)`,
/// floor division, where `rate` is `1000 - swap_fee`.
pub open spec fn spec_swap_output(
    from_pool: int,
    to_pool: int,
    amount: int,
    swap_fee: int,
) -> int {
    spec_rate(swap_fee) * amount * to_pool / (1000 * from_pool + spec_rate(swap_fee) * amount)
}

/// The opposite-side amount a liquidity provision must also supply:
/// `amount * opposite_pool / provided_pool + 1` for a positive amount,
/// zero otherwise. The `+ 1` rounds against the provider.
pub open spec fn spec_opposite_equivalent(
    amount: int,
    provided_pool: int,
    opposite_pool: int,
) -> int {
    if amount > 0 {
        amount * opposite_pool / provided_pool + 1
    } else {
        0
    }
}

/// The liquidity shares minted for a provision:
/// `amount * total_shares / provided_pool`, floor division.
pub open spec fn spec_minted_liquidity(amount: int, provided_pool: int, total_shares: int) -> int {
    amount * total_shares / provided_pool
}

/// Whether the liquidity-mint formulas' results fit the 128-bit range,
/// for a positive amount and pool. The products themselves are carried
/// at double width, so only the stored values can overflow.
pub open spec fn mint_fits(
    amount: int,
    provided_pool: int,
    opposite_pool: int,
    total_shares: int,
) -> bool {
    &&& amount * opposite_pool / provided_pool + 1 <= u128::MAX
    &&& amount * total_shares / provided_pool <= u128::MAX
}

/// One side's payout when burning liquidity shares:
/// `pool_side * shares / total_shares`, floor division.
pub open spec fn spec_reclaim_output(pool_side: int, shares: int, total_shares: int) -> int {
    pool_side * shares / total_shares
}

/// Whether the liquidity-burn formula's payouts fit the 128-bit range.
/// The products are carried at double width, so only the payouts can
/// overflow, and on a burn of at most the outstanding total they never
/// do.
pub open spec fn reclaim_fits(pool_a: int, pool_b: int, shares: int, total_shares: int) -> bool {
    &&& pool_a * shares / total_shares <= u128::MAX
    &&& pool_b * shares / total_shares <= u128::MAX
}

/// The integer square root: the largest `x` with `x * x <= y`.
pub open spec fn spec_isqrt(y: int) -> int
    decreases y,
{
    if y <= 0 {
        0
    } else {
        let below = spec_isqrt(y - 1);
        if (below + 1) * (below + 1) <= y {
            below + 1
        } else {
            below
        }
    }
}

/// The defining bracket of the integer square root: its square is at most
/// `y`, the next square is beyond it.
pub proof fn lemma_isqrt_bounds(y: int)
    requires
        y >= 0,
    ensures
        spec_isqrt(y) >= 0,
        spec_isqrt(y) * spec_isqrt(y) <= y < (spec_isqrt(y) + 1) * (spec_isqrt(y) + 1),
    decreases y,
{
    if y == 0 {
    } else {
        lemma_isqrt_bounds(y - 1);
        let below = spec_isqrt(y - 1);
        if (below + 1) * (below + 1) <= y {
            assert(y < (below + 2) * (below + 2)) by (nonlinear_arith)
                requires
                    below >= 0,
                    y - 1 < (below + 1) * (below + 1),
            ;
        }
    }
}

/// Only one value sits in the square-root bracket.
pub proof fn lemma_isqrt_unique(y: int, r: int)
    requires
        y >= 0,
        r >= 0,
        r * r <= y < (r + 1) * (r + 1),
    ensures
        r == spec_isqrt(y),
{
    lemma_isqrt_bounds(y);
    let s = spec_isqrt(y);
    assert(r == s) by (nonlinear_arith)
        requires
            r >= 0,
            s >= 0,
            r * r <= y < (r + 1) * (r + 1),
            s * s <= y < (s + 1) * (s + 1),
    ;
}

/// The largest `x` with `x * x <= y`, found by binary search, rounding
/// down.
pub fn u128_sqrt(y: u128) -> (r: u128)
    ensures
        r * r <= y < (r + 1) * (r + 1),
        r == spec_isqrt(y as int),
{
    let mut l: u128 = 0;
    let mut r_bound: u128 = if y >= SQRT_BOUND {
        SQRT_BOUND
    } else {
        y + 1
    };
    proof {
        assert(r_bound * r_bound > y) by (nonlinear_arith)
            requires
                r_bound == if y >= SQRT_BOUND { SQRT_BOUND as int } else { y + 1 },
                SQRT_BOUND * SQRT_BOUND > u128::MAX,
                y <= u128::MAX,
        ;
    }
    while l != r_bound - 1
        invariant
            l < r_bound <= SQRT_BOUND,
            l * l <= y,
            r_bound * r_bound > y,
        decreases r_bound - l,
    {
        let m: u128 = l + (r_bound - l) / 2;
        assert(l < m < r_bound);
        assert(m * m <= u128::MAX) by (nonlinear_arith)
            requires
                m < SQRT_BOUND,
                SQRT_BOUND == 18446744073709551616,
        ;
        if m * m <= y {
            l = m;
        } else {
            r_bound = m;
        }
    }
    proof {
        lemma_isqrt_unique(y as int, l as int);
    }
    l
}

/// Whether a candidate root stays at or below the true one: for a
/// positive candidate, its square is within the radicand exactly when
/// the candidate is within the radicand divided by it.
proof fn lemma_square_le_via_div(n: int, m: int)
    requires
        n >= 0,
        m >= 1,
    ensures
        (m <= n / m) <==> (m * m <= n),
{
    lemma_fundamental_div_mod(n, m);
    if m <= n / m {
        assert(m * m <= n) by (nonlinear_arith)
            requires
                n == m * (n / m) + n % m,
                n % m >= 0,
                m >= 1,
                m <= n / m,
        ;
    }
    if m * m <= n {
        lemma_div_is_ordered(m * m, n, m);
        lemma_div_multiples_vanish(m, m);
        assert(m * m == m * m);
        assert((m * m) / m == m);
    }
}

/// The initial liquidity shares of a bootstrap: the integer square root
/// of the product of the two provided amounts. The product is carried at
/// double width and its root always fits the 128-bit range, so this
/// never fails.
pub fn initial_liquidity_tokens(token_a_amount: u128, token_b_amount: u128) -> (r: u128)
    ensures
        r == spec_isqrt(token_a_amount * token_b_amount),
        r * r <= token_a_amount * token_b_amount < (r + 1) * (r + 1),
{
    let ghost n: int = token_a_amount * token_b_amount;
    if token_a_amount == u128::MAX && token_b_amount == u128::MAX {
        proof {
            lemma_isqrt_unique(n, u128::MAX as int);
        }
        return u128::MAX;
    }
    let mut l: u128 = 0;
    let mut r_bound: u128 = u128::MAX;
    proof {
        assert(n < u128::MAX * u128::MAX) by (nonlinear_arith)
            requires
                n == token_a_amount * token_b_amount,
                token_a_amount <= u128::MAX,
                token_b_amount <= u128::MAX,
                !(token_a_amount == u128::MAX && token_b_amount == u128::MAX),
        ;
        assert(n >= 0) by (nonlinear_arith)
            requires
                n == token_a_amount * token_b_amount,
                token_a_amount >= 0,
                token_b_amount >= 0,
        ;
    }
    while l != r_bound - 1
        invariant
            n == token_a_amount * token_b_amount,
            l < r_bound,
            l * l <= n,
            r_bound * r_bound > n,
            n >= 0,
        decreases r_bound - l,
    {
        let m: u128 = l + (r_bound - l) / 2;
        assert(l < m < r_bound);
        let below = match wide::mul_div_floor(token_a_amount, token_b_amount, m) {
            Ok(quotient) => m <= quotient,
            Err(_) => true,
        };
        proof {
            lemma_square_le_via_div(n, m as int);
        }
        if below {
            l = m;
        } else {
            r_bound = m;
        }
    }
    proof {
        lemma_isqrt_unique(n, l as int);
    }
    l
}

/// The amount of the exit token received for `swap_from_amount` of the
/// entry token, after netting out the fee of `swap_fee` parts per
/// thousand. The products are carried at double width, and the payout is
/// bounded by the exit pool, so the only failure is `DivisionByZero`
/// when the divisor is zero, which happens exactly when the entry pool
/// and the amount are both zero.
pub fn calculate_swap_to_amount(
    from_pool: u128,
    to_pool: u128,
    swap_from_amount: u128,
    swap_fee: u128,
) -> (r: Result<u128, PoolError>)
    requires
        1 <= swap_fee <= 999,
    ensures
        from_pool == 0 && swap_from_amount == 0 ==> r == Err::<u128, PoolError>(
            PoolError::DivisionByZero,
        ),
        !(from_pool == 0 && swap_from_amount == 0) ==> (r matches Ok(out) && out
            == spec_swap_output(
            from_pool as int,
            to_pool as int,
            swap_from_amount as int,
            swap_fee as int,
        )),
{
    if from_pool == 0 && swap_from_amount == 0 {
        return Err(PoolError::DivisionByZero);
    }
    let remainder_ratio: u128 = 1000 - swap_fee;
    let fee_adjusted = wide::wide_mul_small(swap_from_amount, remainder_ratio);
    let scaled_pool = wide::wide_mul_small(from_pool, 1000);
    proof {
        assert(wide::wval(fee_adjusted) == spec_rate(swap_fee as int) * swap_from_amount)
            by (nonlinear_arith)
            requires
                wide::wval(fee_adjusted) == swap_from_amount * (1000 - swap_fee),
        ;
        assert(wide::wval(scaled_pool) == 1000 * from_pool) by (nonlinear_arith)
            requires
                wide::wval(scaled_pool) == from_pool * 1000,
        ;
        assert(wide::wval(fee_adjusted) <= u128::MAX * 1000) by (nonlinear_arith)
            requires
                wide::wval(fee_adjusted) == swap_from_amount * (1000 - swap_fee),
                swap_from_amount <= u128::MAX,
                1 <= swap_fee <= 999,
        ;
        assert(wide::wval(scaled_pool) <= u128::MAX * 1000) by (nonlinear_arith)
            requires
                wide::wval(scaled_pool) == from_pool * 1000,
                from_pool <= u128::MAX,
        ;
        assert(fee_adjusted.hi * wide::base() <= wide::wval(fee_adjusted));
        assert(scaled_pool.hi * wide::base() <= wide::wval(scaled_pool));
        assert(fee_adjusted.hi < 1001 && scaled_pool.hi < 1001);
    }
    let denominator = wide::wide_add(scaled_pool, fee_adjusted);
    proof {
        assert(wide::wval(denominator) > 0) by (nonlinear_arith)
            requires
                wide::wval(denominator) == 1000 * from_pool + spec_rate(swap_fee as int)
                    * swap_from_amount,
                spec_rate(swap_fee as int) >= 1,
                from_pool >= 1 || swap_from_amount >= 1,
                from_pool >= 0,
                swap_from_amount >= 0,
        ;
        assert(denominator.hi <= scaled_pool.hi + fee_adjusted.hi + 1);
    }
    if wide::wide_ge(&fee_adjusted, &denominator) {
        // The entry pool is empty and the fee-adjusted input is the
        // whole divisor: the exact quotient is the exit pool itself.
        proof {
            assert(from_pool == 0) by (nonlinear_arith)
                requires
                    spec_rate(swap_fee as int) * swap_from_amount >= 1000 * from_pool
                        + spec_rate(swap_fee as int) * swap_from_amount,
                    from_pool >= 0,
            ;
            let rate_in = spec_rate(swap_fee as int) * swap_from_amount;
            assert(rate_in >= 1) by (nonlinear_arith)
                requires
                    rate_in == spec_rate(swap_fee as int) * swap_from_amount,
                    spec_rate(swap_fee as int) >= 1,
                    swap_from_amount >= 1,
            ;
            lemma_div_multiples_vanish(to_pool as int, rate_in);
            assert(spec_swap_output(
                from_pool as int,
                to_pool as int,
                swap_from_amount as int,
                swap_fee as int,
            ) == to_pool);
        }
        return Ok(to_pool);
    }
    let out = wide::wide_mul_div(fee_adjusted, to_pool, denominator);
    Ok(out)
}

/// The opposite-side amount owed and the liquidity shares minted for
/// providing `provided_amount` into a pool holding `provided_pool` on the
/// entry side, `opposite_pool` on the other, with `total_minted_liquidity`
/// shares outstanding.
///
/// A zero provision yields `(0, 0)`. Otherwise the call fails with
/// `DivisionByZero` when the entry pool is empty, and with
/// `ArithmeticOverflow` when an intermediate exceeds the 128-bit range.
pub fn calculate_equivalent_and_minted_tokens(
    provided_amount: u128,
    provided_pool: u128,
    opposite_pool: u128,
    total_minted_liquidity: u128,
) -> (r: Result<(u128, u128), PoolError>)
    ensures
        provided_amount == 0 ==> r == Ok::<(u128, u128), PoolError>((0u128, 0u128)),
        provided_amount > 0 && provided_pool == 0 ==> r == Err::<(u128, u128), PoolError>(
            PoolError::DivisionByZero,
        ),
        provided_amount > 0 && provided_pool > 0 && !mint_fits(
            provided_amount as int,
            provided_pool as int,
            opposite_pool as int,
            total_minted_liquidity as int,
        ) ==> r == Err::<(u128, u128), PoolError>(PoolError::ArithmeticOverflow),
        provided_amount > 0 && provided_pool > 0 && mint_fits(
            provided_amount as int,
            provided_pool as int,
            opposite_pool as int,
            total_minted_liquidity as int,
        ) ==> (r matches Ok(pair) && pair.0 == spec_opposite_equivalent(
            provided_amount as int,
            provided_pool as int,
            opposite_pool as int,
        ) && pair.1 == spec_minted_liquidity(
            provided_amount as int,
            provided_pool as int,
            total_minted_liquidity as int,
        )),
{
    if provided_amount == 0 {
        return Ok((0, 0));
    }
    if provided_pool == 0 {
        return Err(PoolError::DivisionByZero);
    }
    let scaled_opposite = match wide::mul_div_floor(provided_amount, opposite_pool, provided_pool) {
        Ok(v) => v,
        Err(e) => {
            return Err(e);
        },
    };
    let opposite_equivalent = match scaled_opposite.checked_add(1) {
        Some(v) => v,
        None => {
            return Err(PoolError::ArithmeticOverflow);
        },
    };
    let minted_liquidity_tokens = match wide::mul_div_floor(
        provided_amount,
        total_minted_liquidity,
        provided_pool,
    ) {
        Ok(v) => v,
        Err(e) => {
            return Err(e);
        },
    };
    Ok((opposite_equivalent, minted_liquidity_tokens))
}

/// The two payouts for burning `liquidity_token_amount` shares out of
/// `minted_liquidity` total, against pools of `pool_a` and `pool_b`.
///
/// Fails with `DivisionByZero` when no shares are outstanding, and with
/// `ArithmeticOverflow` when a payout itself exceeds the 128-bit range,
/// which cannot happen when at most the outstanding total is burned.
pub fn calculate_reclaim_output(
    liquidity_token_amount: u128,
    pool_a: u128,
    pool_b: u128,
    minted_liquidity: u128,
) -> (r: Result<(u128, u128), PoolError>)
    ensures
        minted_liquidity == 0 ==> r == Err::<(u128, u128), PoolError>(PoolError::DivisionByZero),
        minted_liquidity > 0 && !reclaim_fits(
            pool_a as int,
            pool_b as int,
            liquidity_token_amount as int,
            minted_liquidity as int,
        ) ==> r == Err::<(u128, u128), PoolError>(PoolError::ArithmeticOverflow),
        minted_liquidity > 0 && reclaim_fits(
            pool_a as int,
            pool_b as int,
            liquidity_token_amount as int,
            minted_liquidity as int,
        ) ==> (r matches Ok(pair) && pair.0 == spec_reclaim_output(
            pool_a as int,
            liquidity_token_amount as int,
            minted_liquidity as int,
        ) && pair.1 == spec_reclaim_output(
            pool_b as int,
            liquidity_token_amount as int,
            minted_liquidity as int,
        )),
{
    if minted_liquidity == 0 {
        return Err(PoolError::DivisionByZero);
    }
    let a_output = match wide::mul_div_floor(pool_a, liquidity_token_amount, minted_liquidity) {
        Ok(v) => v,
        Err(e) => {
            return Err(e);
        },
    };
    let b_output = match wide::mul_div_floor(pool_b, liquidity_token_amount, minted_liquidity) {
        Ok(v) => v,
        Err(e) => {
            return Err(e);
        },
    };
    Ok((a_output, b_output))
}

/// The swap payout never reaches the exit pool: a swap cannot drain the
/// exit side to zero.
pub proof fn lemma_swap_output_lt_to_pool(from_pool: int, to_pool: int, amount: int, swap_fee: int)
    requires
        from_pool >= 1,
        to_pool >= 1,
        amount >= 0,
        1 <= swap_fee <= 999,
    ensures
        spec_swap_output(from_pool, to_pool, amount, swap_fee) < to_pool,
{
    let rate = spec_rate(swap_fee);
    let numerator = rate * amount * to_pool;
    let denominator = 1000 * from_pool + rate * amount;
    let out = numerator / denominator;
    assert(numerator >= 0) by (nonlinear_arith)
        requires
            rate >= 1,
            amount >= 0,
            to_pool >= 1,
            numerator == rate * amount * to_pool,
    ;
    assert(numerator < denominator * to_pool) by (nonlinear_arith)
        requires
            from_pool >= 1,
            to_pool >= 1,
            amount >= 0,
            1 <= rate <= 999,
            numerator == rate * amount * to_pool,
            denominator == 1000 * from_pool + rate * amount,
    ;
    lemma_fundamental_div_mod(numerator, denominator);
    assert(denominator * out <= numerator);
    assert(out < to_pool) by (nonlinear_arith)
        requires
            denominator > 0,
            denominator * out <= numerator,
            numerator < denominator * to_pool,
    ;
}

/// Conservation of the constant product: a swap never decreases the
/// product of the two reserves, and strictly increases it when any input
/// is provided, because the fee is never zero.
pub proof fn lemma_swap_constant_product(from_pool: int, to_pool: int, amount: int, swap_fee: int)
    requires
        from_pool >= 1,
        to_pool >= 1,
        amount >= 0,
        1 <= swap_fee <= 999,
    ensures
        (from_pool + amount) * (to_pool - spec_swap_output(from_pool, to_pool, amount, swap_fee))
            >= from_pool * to_pool,
        amount >= 1 ==> (from_pool + amount) * (to_pool - spec_swap_output(
            from_pool,
            to_pool,
            amount,
            swap_fee,
        )) > from_pool * to_pool,
{
    let rate = spec_rate(swap_fee);
    let numerator = rate * amount * to_pool;
    let denominator = 1000 * from_pool + rate * amount;
    let out = numerator / denominator;
    assert(numerator >= 0 && denominator > 0) by (nonlinear_arith)
        requires
            from_pool >= 1,
            amount >= 0,
            to_pool >= 1,
            1 <= rate <= 999,
            numerator == rate * amount * to_pool,
            denominator == 1000 * from_pool + rate * amount,
    ;
    lemma_fundamental_div_mod(numerator, denominator);
    assert(denominator * out <= numerator);
    // The payout times the grown entry pool stays at or below the input
    // times the exit pool; strictly below for a positive input.
    assert(numerator * (from_pool + amount) <= amount * to_pool * denominator) by (nonlinear_arith)
        requires
            from_pool >= 1,
            to_pool >= 1,
            amount >= 0,
            1 <= rate <= 999,
            numerator == rate * amount * to_pool,
            denominator == 1000 * from_pool + rate * amount,
    ;
    assert(out * (from_pool + amount) <= amount * to_pool) by (nonlinear_arith)
        requires
            denominator > 0,
            from_pool + amount > 0,
            denominator * out <= numerator,
            numerator * (from_pool + amount) <= amount * to_pool * denominator,
            out >= 0,
    ;
    assert((from_pool + amount) * (to_pool - out) >= from_pool * to_pool) by (nonlinear_arith)
        requires
            out * (from_pool + amount) <= amount * to_pool,
            from_pool >= 1,
            to_pool >= 1,
            amount >= 0,
    ;
    if amount >= 1 {
        assert(numerator * (from_pool + amount) < amount * to_pool * denominator)
            by (nonlinear_arith)
            requires
                from_pool >= 1,
                to_pool >= 1,
                amount >= 1,
                1 <= rate <= 999,
                numerator == rate * amount * to_pool,
                denominator == 1000 * from_pool + rate * amount,
        ;
        assert(out * (from_pool + amount) < amount * to_pool) by (nonlinear_arith)
            requires
                denominator > 0,
                from_pool + amount > 0,
                denominator * out <= numerator,
                numerator * (from_pool + amount) < amount * to_pool * denominator,
        ;
        assert((from_pool + amount) * (to_pool - out) > from_pool * to_pool) by (nonlinear_arith)
            requires
                out * (from_pool + amount) < amount * to_pool,
                from_pool >= 1,
                to_pool >= 1,
                amount >= 1,
        ;
    }
}

/// Price impact never improves with size, before rounding: the exact
/// (rational) payout per unit of entry amount is non-increasing as the
/// entry amount grows. With payouts `n_1/d_1` and `n_2/d_2` for entry
/// amounts `a_1 <= a_2`, the claim `n_1/(d_1*a_1) >= n_2/(d_2*a_2)` is
/// stated cross-multiplied.
pub proof fn lemma_swap_price_impact_exact(
    from_pool: int,
    to_pool: int,
    amount_small: int,
    amount_large: int,
    swap_fee: int,
)
    requires
        from_pool >= 1,
        to_pool >= 1,
        1 <= amount_small <= amount_large,
        1 <= swap_fee <= 999,
    ensures
        (spec_rate(swap_fee) * amount_small * to_pool) * ((1000 * from_pool + spec_rate(swap_fee)
            * amount_large) * amount_large) >= (spec_rate(swap_fee) * amount_large * to_pool) * ((
        1000 * from_pool + spec_rate(swap_fee) * amount_small) * amount_small),
{
    let rate = spec_rate(swap_fee);
    assert((rate * amount_small * to_pool) * ((1000 * from_pool + rate * amount_large)
        * amount_large) >= (rate * amount_large * to_pool) * ((1000 * from_pool + rate
        * amount_small) * amount_small)) by (nonlinear_arith)
        requires
            from_pool >= 1,
            to_pool >= 1,
            1 <= amount_small <= amount_large,
            1 <= rate <= 999,
    ;
}

/// Price impact never improves with size, on the floored payouts the
/// pool actually pays: the exit amount per unit of entry amount is
/// non-increasing as the entry amount grows, up to the one unit that
/// floor division may round away. Exact proportionality fails on inputs
/// whose payout rounds to zero, such as a one-unit swap against
/// thousand-unit reserves, so the bound carries the `+ 1`.
pub proof fn lemma_swap_price_impact(
    from_pool: int,
    to_pool: int,
    amount_small: int,
    amount_large: int,
    swap_fee: int,
)
    requires
        from_pool >= 1,
        to_pool >= 1,
        1 <= amount_small <= amount_large,
        1 <= swap_fee <= 999,
    ensures
        spec_swap_output(from_pool, to_pool, amount_large, swap_fee) * amount_small < (
        spec_swap_output(from_pool, to_pool, amount_small, swap_fee) + 1) * amount_large,
{
    let rate = spec_rate(swap_fee);
    let num_small = rate * amount_small * to_pool;
    let den_small = 1000 * from_pool + rate * amount_small;
    let num_large = rate * amount_large * to_pool;
    let den_large = 1000 * from_pool + rate * amount_large;
    let out_small = num_small / den_small;
    let out_large = num_large / den_large;
    assert(num_small >= 0 && den_small > 0 && num_large >= 0 && den_large > 0)
        by (nonlinear_arith)
        requires
            from_pool >= 1,
            to_pool >= 1,
            1 <= amount_small <= amount_large,
            1 <= rate <= 999,
            num_small == rate * amount_small * to_pool,
            den_small == 1000 * from_pool + rate * amount_small,
            num_large == rate * amount_large * to_pool,
            den_large == 1000 * from_pool + rate * amount_large,
    ;
    lemma_fundamental_div_mod(num_small, den_small);
    lemma_fundamental_div_mod(num_large, den_large);
    lemma_remainder(num_small, den_small);
    assert(den_large * out_large <= num_large);
    assert(num_small < den_small * (out_small + 1)) by (nonlinear_arith)
        requires
            den_small > 0,
            num_small == den_small * out_small + num_small % den_small,
            0 <= num_small - num_small / den_small * den_small < den_small,
            out_small == num_small / den_small,
    ;
    // Cross-multiplied, the large swap's rational payout per unit is at
    // most the small swap's.
    assert(num_large * amount_small * den_small <= num_small * amount_large * den_large)
        by (nonlinear_arith)
        requires
            from_pool >= 1,
            to_pool >= 1,
            1 <= amount_small <= amount_large,
            1 <= rate <= 999,
            num_small == rate * amount_small * to_pool,
            den_small == 1000 * from_pool + rate * amount_small,
            num_large == rate * amount_large * to_pool,
            den_large == 1000 * from_pool + rate * amount_large,
    ;
    assert(out_large * amount_small < (out_small + 1) * amount_large) by (nonlinear_arith)
        requires
            den_small > 0,
            den_large > 0,
            amount_small >= 1,
            amount_large >= 1,
            out_large >= 0,
            out_small >= 0,
            den_large * out_large <= num_large,
            num_small < den_small * (out_small + 1),
            num_large * amount_small * den_small <= num_small * amount_large * den_large,
    ;
}

} // verus!
