//! Double-width integer arithmetic for the invariant math.
//!
//! The pricing formulas multiply two or three 128-bit quantities before
//! dividing, so their intermediates do not fit the ledger's word size. To
//! keep those computations exact, products are carried in two 128-bit
//! limbs and the quotient is formed by binary long division: the result
//! is the true floored quotient, and only a result that itself leaves the
//! 128-bit range is an overflow.

use vstd::prelude::*;
use vstd::arithmetic::div_mod::{
    lemma_basic_div, lemma_div_basics, lemma_div_denominator, lemma_div_multiples_vanish,
    lemma_div_nonincreasing, lemma_fundamental_div_mod, lemma_fundamental_div_mod_converse,
    lemma_remainder, lemma_truncate_middle,
};
use vstd::arithmetic::power2::{lemma2_to64, lemma_pow2_adds, lemma_pow2_pos, pow2};

use crate::errors::PoolError;

verus! {

/// Two to the sixty-fourth power: the split point of a 128-bit word into
/// 64-bit halves.
pub(crate) const LIMB_HALF: u128 = 18446744073709551616;

/// Two to the hundred-twenty-seventh power: the top bit of a 128-bit
/// word.
pub(crate) const TOP_BIT: u128 = 170141183460469231731687303715884105728;

/// Two to the hundred-twenty-eighth power, as a specification value.
#[verifier::inline]
pub(crate) open spec fn base() -> int {
    u128::MAX as int + 1
}

/// A 256-bit value in two 128-bit limbs.
#[derive(Clone, Copy, Debug, PartialEq, Eq, Structural)]
pub(crate) struct Wide {
    /// The upper limb.
    pub(crate) hi: u128,
    /// The lower limb.
    pub(crate) lo: u128,
}

/// The number a two-limb value denotes.
pub(crate) open spec fn wval(w: Wide) -> int {
    w.hi * base() + w.lo
}

/// A 128-bit value widened to two limbs.
pub(crate) fn wide_from(x: u128) -> (r: Wide)
    ensures
        wval(r) == x,
{
    Wide { hi: 0, lo: x }
}

/// Twice a two-limb value.
pub(crate) fn wide_double(a: Wide) -> (r: Wide)
    requires
        a.hi < TOP_BIT,
    ensures
        wval(r) == 2 * wval(a),
{
    let carry: u128 = a.lo / TOP_BIT;
    let lo: u128 = (a.lo % TOP_BIT) * 2;
    let hi: u128 = a.hi * 2 + carry;
    proof {
        lemma_fundamental_div_mod(a.lo as int, TOP_BIT as int);
        lemma_remainder(a.lo as int, TOP_BIT as int);
    }
    Wide { hi, lo }
}

/// The sum of two two-limb values.
pub(crate) fn wide_add(a: Wide, b: Wide) -> (r: Wide)
    requires
        a.hi + b.hi + 1 <= u128::MAX,
    ensures
        wval(r) == wval(a) + wval(b),
{
    if a.lo <= u128::MAX - b.lo {
        Wide { hi: a.hi + b.hi, lo: a.lo + b.lo }
    } else {
        Wide { hi: a.hi + b.hi + 1, lo: a.lo - (u128::MAX - b.lo) - 1 }
    }
}

/// Whether one two-limb value is at least another.
pub(crate) fn wide_ge(a: &Wide, b: &Wide) -> (r: bool)
    ensures
        r == (wval(*a) >= wval(*b)),
{
    a.hi > b.hi || (a.hi == b.hi && a.lo >= b.lo)
}

/// The difference of two two-limb values.
pub(crate) fn wide_sub(a: Wide, b: Wide) -> (r: Wide)
    requires
        wval(a) >= wval(b),
    ensures
        wval(r) == wval(a) - wval(b),
{
    if a.lo >= b.lo {
        assert(a.hi >= b.hi);
        Wide { hi: a.hi - b.hi, lo: a.lo - b.lo }
    } else {
        assert(a.hi >= b.hi + 1);
        Wide { hi: a.hi - b.hi - 1, lo: a.lo + (u128::MAX - b.lo) + 1 }
    }
}

/// The product of a 128-bit value and a small factor, exact in two limbs.
pub(crate) fn wide_mul_small(x: u128, m: u128) -> (r: Wide)
    requires
        m <= 1000,
    ensures
        wval(r) == x * m,
{
    let xh: u128 = x / LIMB_HALF;
    let xl: u128 = x % LIMB_HALF;
    proof {
        lemma_fundamental_div_mod(x as int, LIMB_HALF as int);
        lemma_remainder(x as int, LIMB_HALF as int);
        assert(xh < LIMB_HALF) by (nonlinear_arith)
            requires
                x <= u128::MAX,
                xh == x as int / LIMB_HALF as int,
                u128::MAX < LIMB_HALF * LIMB_HALF,
                LIMB_HALF > 0,
        ;
        assert(xh * m <= (LIMB_HALF - 1) * 1000 && xl * m <= (LIMB_HALF - 1) * 1000)
            by (nonlinear_arith)
            requires
                xh <= LIMB_HALF - 1,
                xl <= LIMB_HALF - 1,
                m <= 1000,
                xh >= 0,
                xl >= 0,
                m >= 0,
        ;
    }
    let ph: u128 = xh * m;
    let pl: u128 = xl * m;
    let carry: u128 = ph / LIMB_HALF;
    let mid: u128 = ph % LIMB_HALF;
    let shifted: u128 = mid * LIMB_HALF;
    proof {
        lemma_fundamental_div_mod(ph as int, LIMB_HALF as int);
        lemma_remainder(ph as int, LIMB_HALF as int);
        assert(shifted <= (LIMB_HALF - 1) * LIMB_HALF) by (nonlinear_arith)
            requires
                mid <= LIMB_HALF - 1,
                mid >= 0,
                shifted == mid * LIMB_HALF,
        ;
        // The value is ph * LIMB_HALF + pl == carry * base() + mid * LIMB_HALF + pl.
        assert(x * m == ph * LIMB_HALF + pl) by (nonlinear_arith)
            requires
                x == LIMB_HALF * xh + xl,
                ph == xh * m,
                pl == xl * m,
        ;
        assert(ph * LIMB_HALF == carry * base() + mid * LIMB_HALF) by (nonlinear_arith)
            requires
                ph == LIMB_HALF * carry + mid,
                base() == LIMB_HALF * LIMB_HALF,
        ;
    }
    if pl <= u128::MAX - shifted {
        Wide { hi: carry, lo: shifted + pl }
    } else {
        Wide { hi: carry + 1, lo: pl - (u128::MAX - shifted) - 1 }
    }
}

/// The floored quotient of a two-limb numerator factor times a 128-bit
/// factor, by a two-limb divisor that exceeds the numerator factor, by
/// binary long division over the 128-bit factor's bits. Because the
/// ratio of the two wide values is below one, the quotient never exceeds
/// the 128-bit factor.
pub(crate) fn wide_mul_div(w: Wide, t: u128, d: Wide) -> (q: u128)
    requires
        wval(d) > 0,
        wval(w) < wval(d),
        d.hi < 2048,
    ensures
        q == wval(w) * t / wval(d),
{
    let ghost wv: int = wval(w);
    let ghost dv: int = wval(d);
    let mut q: u128 = 0;
    let mut rem = Wide { hi: 0, lo: 0 };
    let mut low: u128 = t;
    let mut j: usize = 0;
    proof {
        lemma2_to64();
        lemma_pow2_adds(64, 64);
        assert(pow2(128) == base()) by (nonlinear_arith)
            requires
                pow2(128) == pow2(64) * pow2(64),
                pow2(64) == 0x10000000000000000,
                base() == u128::MAX as int + 1,
        ;
        assert(t < pow2(128));
        lemma_basic_div(t as int, pow2(128) as int);
        lemma_fundamental_div_mod(t as int, pow2(128) as int);
        assert(t as int % pow2(128) as int == t);
        assert(low as int == pow2(0) * (t as int % pow2(128) as int));
    }
    while j < 128
        invariant
            j <= 128,
            wv == wval(w),
            dv == wval(d),
            dv > 0,
            wv < dv,
            d.hi < 2048,
            t <= u128::MAX,
            low as int == pow2(j as nat) * (t as int % pow2((128 - j) as nat) as int),
            0 <= wval(rem) < dv,
            wv * (t as int / pow2((128 - j) as nat) as int) == dv * q + wval(rem),
            q <= t as int / pow2((128 - j) as nat) as int,
        decreases 128 - j,
    {
        let ghost k: nat = (128 - j) as nat;
        let ghost p: int = t as int / pow2(k) as int;
        let ghost u: int = t as int % pow2(k) as int;
        let b: u128 = low / TOP_BIT;
        let new_low: u128 = (low % TOP_BIT) * 2;
        let ghost p2: int = 2 * p + b;
        proof {
            lemma2_to64();
            lemma_pow2_adds(31, 32);
            assert(pow2(63) == 0x8000000000000000) by (nonlinear_arith)
                requires
                    pow2(63) == pow2(31) * pow2(32),
                    pow2(31) == 0x80000000,
                    pow2(32) == 0x100000000,
            ;
            lemma_pow2_adds(64, 63);
            assert(pow2(127) == TOP_BIT) by (nonlinear_arith)
                requires
                    pow2(127) == pow2(64) * pow2(63),
                    pow2(64) == 0x10000000000000000,
                    pow2(63) == 0x8000000000000000,
                    TOP_BIT == 170141183460469231731687303715884105728,
            ;
            lemma_pow2_pos(k);
            lemma_pow2_pos((k - 1) as nat);
            lemma_pow2_pos(j as nat);
            lemma_fundamental_div_mod(t as int, pow2(k) as int);
            lemma_remainder(t as int, pow2(k) as int);
            assert(0 <= u < pow2(k));
            // The extracted bit is the unprocessed value's top bit.
            lemma_pow2_adds(j as nat, (127 - j) as nat);
            assert(pow2(127) == pow2(j as nat) * pow2((k - 1) as nat));
            lemma_div_denominator(
                low as int,
                pow2(j as nat) as int,
                pow2((k - 1) as nat) as int,
            );
            lemma_div_multiples_vanish(u, pow2(j as nat) as int);
            assert(b == u / pow2((k - 1) as nat) as int);
            lemma_pow2_adds((k - 1) as nat, 1);
            assert(pow2(k) == pow2((k - 1) as nat) * 2);
            assert(b <= 1) by (nonlinear_arith)
                requires
                    0 <= u,
                    u < pow2((k - 1) as nat) * 2,
                    pow2((k - 1) as nat) >= 1,
                    b == u / pow2((k - 1) as nat) as int,
            ;
            // Splitting the top bit off the unprocessed value.
            lemma_fundamental_div_mod(u, pow2((k - 1) as nat) as int);
            lemma_remainder(u, pow2((k - 1) as nat) as int);
            let u2 = u % pow2((k - 1) as nat) as int;
            assert(u == b * pow2((k - 1) as nat) + u2);
            // The processed prefix grows by that bit.
            assert(t as int == p2 * pow2((k - 1) as nat) + u2) by (nonlinear_arith)
                requires
                    t as int == pow2(k) * p + u,
                    pow2(k) == pow2((k - 1) as nat) * 2,
                    u == b * pow2((k - 1) as nat) + u2,
                    p2 == 2 * p + b,
            ;
            lemma_fundamental_div_mod_converse(
                t as int,
                pow2((k - 1) as nat) as int,
                p2,
                u2,
            );
            assert(t as int / pow2((k - 1) as nat) as int == p2);
            lemma_div_nonincreasing(t as int, pow2((k - 1) as nat) as int);
            assert(p2 <= t);
            // The remaining low bits, shifted one further.
            lemma_truncate_middle(u, pow2(j as nat) as int, pow2((k - 1) as nat) as int);
            assert(low as int % pow2(127) as int == pow2(j as nat) * u2);
            assert(new_low as int == 2 * (pow2(j as nat) * u2));
            lemma_pow2_adds(j as nat, 1);
            assert(new_low as int == pow2((j + 1) as nat) * u2) by (nonlinear_arith)
                requires
                    new_low as int == 2 * (pow2(j as nat) * u2),
                    pow2((j + 1) as nat) == pow2(j as nat) * 2,
            ;
        }
        let ghost q0: int = q as int;
        let ghost r0: int = wval(rem);
        // Bring in the next bit: the partial remainder doubles, plus the
        // numerator factor when the bit is set, and the quotient doubles.
        proof {
            assert(rem.hi <= d.hi);
        }
        let mut shifted = wide_double(rem);
        if b == 1 {
            proof {
                assert(shifted.hi * base() <= wval(shifted));
                assert(w.hi <= d.hi);
            }
            shifted = wide_add(shifted, w);
        }
        q = q * 2;
        proof {
            assert(wv * p2 == dv * (2 * q0) + (2 * r0 + b * wv)) by (nonlinear_arith)
                requires
                    wv * p == dv * q0 + r0,
                    p2 == 2 * p + b,
            ;
            if b == 1 {
                assert(b * wv == wv) by (nonlinear_arith)
                    requires
                        b == 1,
                ;
            } else {
                assert(b * wv == 0) by (nonlinear_arith)
                    requires
                        b == 0,
                ;
            }
            assert(wval(shifted) == 2 * r0 + b * wv);
            assert(wv * p2 == dv * q + wval(shifted));
            assert(wval(shifted) < 3 * dv);
        }
        // Reduce: at most two subtractions bring the partial remainder
        // back under the divisor.
        if wide_ge(&shifted, &d) {
            shifted = wide_sub(shifted, d);
            proof {
                let qn: int = q as int + 1;
                assert(dv * qn == dv * (q as int) + dv) by (nonlinear_arith)
                    requires
                        qn == q as int + 1,
                ;
                assert(wv * p2 == dv * qn + wval(shifted));
                assert(qn <= p2) by (nonlinear_arith)
                    requires
                        wv * p2 == dv * qn + wval(shifted),
                        wval(shifted) >= 0,
                        0 <= wv < dv,
                        p2 >= 0,
                        qn >= 1,
                ;
            }
            q = q + 1;
        }
        if wide_ge(&shifted, &d) {
            shifted = wide_sub(shifted, d);
            proof {
                let qn: int = q as int + 1;
                assert(dv * qn == dv * (q as int) + dv) by (nonlinear_arith)
                    requires
                        qn == q as int + 1,
                ;
                assert(wv * p2 == dv * qn + wval(shifted));
                assert(qn <= p2) by (nonlinear_arith)
                    requires
                        wv * p2 == dv * qn + wval(shifted),
                        wval(shifted) >= 0,
                        0 <= wv < dv,
                        p2 >= 0,
                        qn >= 1,
                ;
            }
            q = q + 1;
        }
        proof {
            assert(wval(shifted) < dv);
            assert(q <= p2) by (nonlinear_arith)
                requires
                    wv * p2 == dv * (q as int) + wval(shifted),
                    wval(shifted) >= 0,
                    0 <= wv < dv,
                    p2 >= 0,
                    q >= 0,
            ;
        }
        rem = shifted;
        low = new_low;
        j = j + 1;
    }
    proof {
        lemma2_to64();
        assert(pow2(0) == 1);
        lemma_div_basics(t as int);
        assert(t as int / pow2(0) as int == t);
        assert(wv * t == (q as int) * dv + wval(rem)) by (nonlinear_arith)
            requires
                wv * t == dv * (q as int) + wval(rem),
        ;
        lemma_fundamental_div_mod_converse(wv * t, dv, q as int, wval(rem));
    }
    q
}

/// The floored quotient `a * b / d`, with the product carried in two
/// limbs so that no intermediate overflows. Fails with
/// `ArithmeticOverflow` exactly when the quotient itself leaves the
/// 128-bit range.
pub(crate) fn mul_div_floor(a: u128, b: u128, d: u128) -> (r: Result<u128, PoolError>)
    requires
        d > 0,
    ensures
        a * b / (d as int) <= u128::MAX ==> (r matches Ok(q) && q == a * b / (d as int)),
        a * b / (d as int) > u128::MAX ==> r == Err::<u128, PoolError>(PoolError::ArithmeticOverflow),
{
    let whole: u128 = a / d;
    let part: u128 = a % d;
    proof {
        lemma_fundamental_div_mod(a as int, d as int);
        lemma_remainder(a as int, d as int);
    }
    let tail: u128 = wide_mul_div(wide_from(part), b, wide_from(d));
    proof {
        // a * b splits along a = d * whole + part.
        lemma_fundamental_div_mod(part as int * b, d as int);
        lemma_remainder(part as int * b, d as int);
        let r0 = part as int * b % d as int;
        assert(a * b == d * (whole * b + tail) + r0) by (nonlinear_arith)
            requires
                a == d * whole + part,
                part as int * b == d * tail + r0,
        ;
        assert(whole * b + tail >= 0) by (nonlinear_arith)
            requires
                whole >= 0,
                b >= 0,
                tail >= 0,
        ;
        lemma_fundamental_div_mod_converse(a as int * b, d as int, whole * b + tail, r0);
        assert(a * b / (d as int) == whole * b + tail);
    }
    let scaled = match whole.checked_mul(b) {
        Some(v) => v,
        None => {
            proof {
                assert(whole * b + tail > u128::MAX);
            }
            return Err(PoolError::ArithmeticOverflow);
        },
    };
    match scaled.checked_add(tail) {
        Some(v) => Ok(v),
        None => Err(PoolError::ArithmeticOverflow),
    }
}

} // verus!
