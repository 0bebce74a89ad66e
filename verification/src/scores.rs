//! Exam scores as the interface sends them: IEEE 754 binary64 numbers,
//! handled here by their bit patterns. A finite score is the exact
//! rational `score_numerator / score_denominator`; it is compared exactly
//! with decimal bounds given in tenths of a point.

use vstd::arithmetic::power2::{lemma2_to64, lemma2_to64_rest, lemma_pow2_pos, lemma_pow2_strictly_increases, lemma_pow2_unfold, pow2};
use vstd::prelude::*;

verus! {

/// The weight of the lowest exponent bit: `2^52`.
pub const FRACTION_UNIT: u64 = 4503599627370496;

/// The weight of the sign bit: `2^63`.
pub const SIGN_UNIT: u64 = 9223372036854775808;

/// The biased exponent field of a binary64 number.
pub open spec fn biased_exponent(bits: u64) -> int {
    ((bits / FRACTION_UNIT) % 2048) as int
}

/// Whether the sign bit is set.
pub open spec fn is_negative(bits: u64) -> bool {
    bits >= SIGN_UNIT
}

/// Whether the number is finite (neither infinite nor NaN).
pub open spec fn is_finite(bits: u64) -> bool {
    biased_exponent(bits) != 2047
}

/// The significand, with the implicit leading bit of a normal number.
pub open spec fn significand(bits: u64) -> int {
    (bits % FRACTION_UNIT) as int + if biased_exponent(bits) > 0 { FRACTION_UNIT as int } else { 0 }
}

/// The power of two the significand is scaled by.
pub open spec fn exponent(bits: u64) -> int {
    (if biased_exponent(bits) > 0 { biased_exponent(bits) } else { 1 }) - 1075
}

/// The numerator of a finite number's exact value.
pub open spec fn score_numerator(bits: u64) -> int {
    let magnitude = significand(bits) * if exponent(bits) >= 0 { pow2(exponent(bits) as nat) as int } else { 1 };
    if is_negative(bits) { -magnitude } else { magnitude }
}

/// The denominator of a finite number's exact value: a power of two.
pub open spec fn score_denominator(bits: u64) -> int {
    if exponent(bits) >= 0 { 1 } else { pow2((-exponent(bits)) as nat) as int }
}

/// Whether the finite number is at least `tenths / 10`.
pub open spec fn at_least_tenths(bits: u64, tenths: int) -> bool {
    10 * score_numerator(bits) >= tenths * score_denominator(bits)
}

/// Whether the finite number is at most `tenths / 10`.
pub open spec fn at_most_tenths(bits: u64, tenths: int) -> bool {
    10 * score_numerator(bits) <= tenths * score_denominator(bits)
}

/// Whether the finite number with bits `a` is at most the one with bits
/// `b`.
pub open spec fn score_le(a: u64, b: u64) -> bool {
    score_numerator(a) * score_denominator(b) <= score_numerator(b) * score_denominator(a)
}

/// The denominator of a number's value is positive.
pub proof fn lemma_denominator_positive(bits: u64)
    ensures
        score_denominator(bits) >= 1,
{
    if exponent(bits) < 0 {
        lemma_pow2_pos((-exponent(bits)) as nat);
    }
}

/// A number at least `tenths / 10` stays so when it grows: if `a` reaches
/// the bound and `a <= b`, so does `b`.
pub proof fn lemma_at_least_grows(a: u64, b: u64, tenths: int)
    requires
        at_least_tenths(a, tenths),
        score_le(a, b),
    ensures
        at_least_tenths(b, tenths),
{
    lemma_denominator_positive(a);
    lemma_denominator_positive(b);
    let na = score_numerator(a);
    let nb = score_numerator(b);
    let da = score_denominator(a);
    let db = score_denominator(b);
    assert(10 * nb >= tenths * db) by (nonlinear_arith)
        requires
            10 * na >= tenths * da,
            na * db <= nb * da,
            da >= 1,
            db >= 1,
    {
        assert(10 * na * db >= tenths * da * db);
        assert(10 * nb * da >= 10 * na * db);
        assert(10 * nb * da >= tenths * db * da);
    }
}

/// Whether the number with bits `bits` is finite.
pub fn is_finite_bits(bits: u64) -> (r: bool)
    ensures
        r == is_finite(bits),
{
    (bits / FRACTION_UNIT) % 2048 != 2047
}

/// `2^k` for a small `k`.
fn pow2_u128(k: u32) -> (r: u128)
    requires
        k < 64,
    ensures
        r == pow2(k as nat),
        r <= 0x8000_0000_0000_0000,
{
    let mut p: u128 = 1;
    let mut i: u32 = 0;
    proof {
        lemma2_to64();
        lemma2_to64_rest();
    }
    while i < k
        invariant
            i <= k < 64,
            p == pow2(i as nat),
            pow2(63) == 0x8000_0000_0000_0000,
        decreases k - i,
    {
        proof {
            lemma_pow2_unfold((i + 1) as nat);
            if i + 1 < 63 {
                lemma_pow2_strictly_increases(i as nat, 63);
            }
        }
        p = p * 2;
        i = i + 1;
    }
    proof {
        if k < 63 {
            lemma_pow2_strictly_increases(k as nat, 63);
        }
    }
    p
}

/// The sign, significand and exponent of a finite number.
fn decode(bits: u64) -> (r: (bool, u64, i32))
    requires
        is_finite(bits),
    ensures
        r.0 == is_negative(bits),
        r.1 == significand(bits),
        r.2 == exponent(bits),
        r.1 < 2 * FRACTION_UNIT,
        -1074 <= r.2 <= 971,
{
    let field = (bits / FRACTION_UNIT) % 2048;
    let fraction = bits % FRACTION_UNIT;
    let (significand, biased) = if field > 0 {
        (fraction + FRACTION_UNIT, field)
    } else {
        (fraction, 1)
    };
    let exponent: i32 = (biased as i32) - 1075;
    (bits >= SIGN_UNIT, significand, exponent)
}

/// Whether the finite number with bits `bits` is at least `tenths / 10`.
pub fn score_at_least_tenths(bits: u64, tenths: u32) -> (r: bool)
    requires
        is_finite(bits),
    ensures
        r == at_least_tenths(bits, tenths as int),
{
    let (negative, m, e) = decode(bits);
    let ghost den = score_denominator(bits);
    let ghost num = score_numerator(bits);
    let ghost big = if e >= 0 { pow2(e as nat) as int } else { 1 };
    proof {
        if e >= 0 {
            lemma_pow2_pos(e as nat);
        } else {
            lemma_pow2_pos((-e) as nat);
        }
        assert(den >= 1);
        assert(big >= 1);
        assert(m * big >= 0) by (nonlinear_arith)
            requires m >= 0, big >= 1;
        assert(tenths * den >= 0) by (nonlinear_arith)
            requires tenths >= 0, den >= 1;
    }
    if negative {
        proof {
            if m > 0 {
                assert(m * big >= 1) by (nonlinear_arith)
                    requires m >= 1, big >= 1;
            } else {
                assert(m * big == 0);
            }
            if tenths > 0 {
                assert(tenths * den >= 1) by (nonlinear_arith)
                    requires tenths >= 1, den >= 1;
            }
        }
        return m == 0 && tenths == 0;
    }
    if e >= 0 {
        if e >= 32 {
            proof {
                if e > 32 {
                    lemma_pow2_strictly_increases(32, e as nat);
                }
                lemma2_to64();
                if m > 0 {
                    assert(10 * (m * big) >= tenths) by (nonlinear_arith)
                        requires m >= 1, big >= 0x1_0000_0000, tenths < 0x1_0000_0000;
                }
            }
            return m > 0 || tenths == 0;
        }
        let p = pow2_u128(e as u32);
        proof {
            lemma2_to64();
            lemma_pow2_strictly_increases(e as nat, 32);
            assert(10 * m * p < 0x1_0000_0000_0000_0000_0000_0000_0000) by (nonlinear_arith)
                requires m < 2 * FRACTION_UNIT, p <= 0x1_0000_0000, p >= 0;
            assert(10 * m * p == 10 * (m * big)) by (nonlinear_arith)
                requires p == big;
        }
        let lhs: u128 = 10 * (m as u128) * p;
        lhs >= tenths as u128
    } else {
        let k: u32 = (0 - e) as u32;
        if k >= 64 {
            proof {
                lemma2_to64_rest();
                lemma_pow2_strictly_increases(63, k as nat);
                assert(den == pow2(k as nat));
                assert(score_numerator(bits) == m);
                assert(10 * m < den);
                if tenths > 0 {
                    assert(tenths * den >= den) by (nonlinear_arith)
                        requires tenths >= 1, den >= 1;
                }
            }
            return tenths == 0;
        }
        let p = pow2_u128(k);
        proof {
            assert(tenths * p < 0x1_0000_0000_0000_0000_0000_0000) by (nonlinear_arith)
                requires tenths < 0x1_0000_0000, p <= 0x8000_0000_0000_0000, p >= 0;
        }
        let rhs: u128 = (tenths as u128) * p;
        10 * (m as u128) >= rhs
    }
}

/// Whether the finite number with bits `bits` is at most `tenths / 10`.
pub fn score_at_most_tenths(bits: u64, tenths: u32) -> (r: bool)
    requires
        is_finite(bits),
    ensures
        r == at_most_tenths(bits, tenths as int),
{
    let (negative, m, e) = decode(bits);
    let ghost den = score_denominator(bits);
    let ghost big = if e >= 0 { pow2(e as nat) as int } else { 1 };
    proof {
        if e >= 0 {
            lemma_pow2_pos(e as nat);
        } else {
            lemma_pow2_pos((-e) as nat);
        }
        assert(m * big >= 0) by (nonlinear_arith)
            requires m >= 0, big >= 1;
        assert(tenths * den >= 0) by (nonlinear_arith)
            requires tenths >= 0, den >= 1;
    }
    if negative {
        return true;
    }
    if e >= 0 {
        if e >= 32 {
            proof {
                if e > 32 {
                    lemma_pow2_strictly_increases(32, e as nat);
                }
                lemma2_to64();
                if m > 0 {
                    assert(10 * (m * big) > tenths) by (nonlinear_arith)
                        requires m >= 1, big >= 0x1_0000_0000, tenths < 0x1_0000_0000;
                } else {
                    assert(m * big == 0);
                }
            }
            return m == 0;
        }
        let p = pow2_u128(e as u32);
        proof {
            lemma2_to64();
            lemma_pow2_strictly_increases(e as nat, 32);
            assert(10 * m * p < 0x1_0000_0000_0000_0000_0000_0000_0000) by (nonlinear_arith)
                requires m < 2 * FRACTION_UNIT, p <= 0x1_0000_0000, p >= 0;
            assert(10 * m * p == 10 * (m * big)) by (nonlinear_arith)
                requires p == big;
        }
        let lhs: u128 = 10 * (m as u128) * p;
        lhs <= tenths as u128
    } else {
        let k: u32 = (0 - e) as u32;
        if k >= 64 {
            proof {
                lemma2_to64_rest();
                lemma_pow2_strictly_increases(63, k as nat);
                assert(den == pow2(k as nat));
                assert(score_numerator(bits) == m);
                assert(10 * m < den);
                if tenths > 0 {
                    assert(tenths * den >= den) by (nonlinear_arith)
                        requires tenths >= 1, den >= 1;
                }
            }
            return tenths > 0 || m == 0;
        }
        let p = pow2_u128(k);
        proof {
            assert(tenths * p < 0x1_0000_0000_0000_0000_0000_0000) by (nonlinear_arith)
                requires tenths < 0x1_0000_0000, p <= 0x8000_0000_0000_0000, p >= 0;
        }
        let rhs: u128 = (tenths as u128) * p;
        10 * (m as u128) <= rhs
    }
}

} // verus!
