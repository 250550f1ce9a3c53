//! Small arithmetic building blocks of the fixed-point indicator pipeline:
//! floor division over signed values, an integer square root, and a
//! fixed-point base-2 logarithm.

use vstd::prelude::*;

verus! {

use vstd::arithmetic::power2::{pow2, lemma2_to64, lemma_pow2_pos, lemma_pow2_unfold,
    lemma_pow2_strictly_increases};

/// Floor division (round toward negative infinity) of `a` by a positive `d`.
///
/// This matches the mathematical `/` of specifications, so callers can state
/// results directly over `a as int / d as int`.
pub fn div_floor(a: i64, d: i64) -> (r: i64)
    requires
        d > 0,
        -0x4000_0000_0000_0000 <= a < 0x4000_0000_0000_0000,
    ensures
        r == a as int / d as int,
{
    if a >= 0 {
        a / d
    } else {
        let q = (-a) / d;
        let m = (-a) % d;
        proof {
            vstd::arithmetic::div_mod::lemma_fundamental_div_mod((-a) as int, d as int);
            if m == 0 {
                assert(a as int == (-q as int) * d + 0) by (nonlinear_arith)
                    requires (-a) as int == d as int * (q as int) + 0;
                vstd::arithmetic::div_mod::lemma_fundamental_div_mod_converse(
                    a as int, d as int, -q as int, 0);
            } else {
                assert(a as int == (-q - 1) as int * d + (d - m)) by (nonlinear_arith)
                    requires (-a) as int == d as int * (q as int) + (m as int);
                vstd::arithmetic::div_mod::lemma_fundamental_div_mod_converse(
                    a as int, d as int, (-q - 1) as int, (d - m) as int);
            }
        }
        if m == 0 {
            -q
        } else {
            -q - 1
        }
    }
}

/// A quotient lies between `lo` and `hi` whenever the dividend lies between
/// `lo * den` and `hi * den`.
pub proof fn lemma_div_between(lo: int, hi: int, num: int, den: int)
    requires
        den >= 1,
        lo * den <= num <= hi * den,
    ensures
        lo <= num / den <= hi,
{
    vstd::arithmetic::div_mod::lemma_div_is_ordered(lo * den, num, den);
    vstd::arithmetic::div_mod::lemma_div_is_ordered(num, hi * den, den);
    vstd::arithmetic::div_mod::lemma_div_multiples_vanish(lo, den);
    vstd::arithmetic::div_mod::lemma_div_multiples_vanish(hi, den);
    assert(lo * den == den * lo) by (nonlinear_arith);
    assert(hi * den == den * hi) by (nonlinear_arith);
}

/// The integer square root: the largest `r` with `r * r <= n`.
pub open spec fn is_isqrt(n: int, r: int) -> bool {
    &&& 0 <= r
    &&& r * r <= n
    &&& (r + 1) * (r + 1) > n
}

/// Integer square root by bisection, for inputs below 2^80.
pub fn isqrt_u128(n: u128) -> (r: u64)
    requires
        n < 0x1_0000_0000_0000_0000_0000,
    ensures
        is_isqrt(n as int, r as int),
{
    let mut lo: u128 = 0;
    let mut hi: u128 = 0x100_0000_0000;
    if n < hi {
        hi = n + 1;
        proof {
            assert((n + 1) * (n + 1) > n) by (nonlinear_arith)
                requires n >= 0;
        }
    }
    // Bisection invariant: lo * lo <= n < hi * hi.
    while lo + 1 < hi
        invariant
            lo < hi,
            hi <= 0x100_0000_0000,
            lo * lo <= n,
            hi * hi > n,
        decreases hi - lo,
    {
        let mid: u128 = lo + (hi - lo) / 2;
        proof {
            assert(mid * mid < 0x1_0000_0000_0000_0000_0000_0000) by (nonlinear_arith)
                requires mid < 0x100_0000_0000;
        }
        if mid * mid <= n {
            lo = mid;
        } else {
            hi = mid;
        }
    }
    lo as u64
}

/// Mantissa normalization, doubling phase: scale a mantissa in [1, 2^32)
/// up into [2^32, 2^33), decrementing the exponent once per doubling.
pub open spec fn log2_norm_up(m: int, e: int) -> (int, int)
    decreases (if 1 <= m < 0x1_0000_0000 {
        0x1_0000_0000 - m
    } else {
        0
    }),
{
    if 1 <= m < 0x1_0000_0000 {
        log2_norm_up(2 * m, e - 1)
    } else {
        (m, e)
    }
}

/// Mantissa normalization, halving phase: scale a mantissa at or above 2^33
/// down into [2^32, 2^33), incrementing the exponent once per halving.
pub open spec fn log2_norm_down(m: int, e: int) -> (int, int)
    decreases (if m >= 0x2_0000_0000 {
        m
    } else {
        0
    }),
{
    if m >= 0x2_0000_0000 {
        log2_norm_down(m / 2, e + 1)
    } else {
        (m, e)
    }
}

/// Normalize a positive mantissa into [2^32, 2^33), adjusting the exponent.
pub open spec fn log2_norm_spec(m: int, e: int) -> (int, int) {
    if m < 0x1_0000_0000 {
        log2_norm_up(m, e)
    } else {
        log2_norm_down(m, e)
    }
}

/// One squaring step of the fractional part of a base-2 logarithm.
/// `m` is a mantissa scaled by 2^32, kept in [2^32, 2^33); the step squares
/// it, renormalizes, and reports whether a fractional bit was produced.
pub open spec fn log2_frac_step(m: int) -> (int, int) {
    let sq = (m * m) / 0x1_0000_0000;
    if sq >= 0x2_0000_0000 {
        (sq / 2, 1)
    } else {
        (sq, 0)
    }
}

/// The fractional part of the fixed-point base-2 logarithm: `bits` more
/// bits extracted from mantissa `m`, appended onto the accumulator `acc`.
pub open spec fn log2_frac_spec(m: int, bits: nat, acc: int) -> int
    decreases bits,
{
    if bits == 0 {
        acc
    } else {
        log2_frac_spec(log2_frac_step(m).0, (bits - 1) as nat, 2 * acc + log2_frac_step(m).1)
    }
}

/// Fixed-point base-2 logarithm of a positive integer, scaled by 2^16.
/// The value is defined by the normalization and squaring recursions above;
/// it approximates `65536 * log2(x)` to within a few units.
pub open spec fn log2_fp_spec(x: int) -> int {
    let m = log2_norm_spec(x, 32).0;
    let e = log2_norm_spec(x, 32).1;
    e * 65536 + log2_frac_spec(m, 16, 0)
}

/// Fixed-point base-2 logarithm, scaled by 2^16.
pub fn log2_fp(x: u64) -> (r: i64)
    requires
        1 <= x,
    ensures
        r == log2_fp_spec(x as int),
        0 <= r <= 65 * 65536,
{
    let mut m: u64 = x;
    let mut e: i64 = 32;
    let ghost norm = log2_norm_spec(x as int, 32);
    if m < 0x1_0000_0000 {
        proof {
            lemma2_to64();
        }
        while m < 0x1_0000_0000
            invariant
                1 <= m < 0x2_0000_0000,
                0 <= e <= 32,
                pow2((32 - e) as nat) <= m,
                log2_norm_up(m as int, e as int) == norm,
            decreases 0x2_0000_0000 - m,
        {
            proof {
                if 32 - e >= 32 {
                    lemma2_to64();
                    if 32 - e > 32 {
                        lemma_pow2_strictly_increases(32, (32 - e) as nat);
                    }
                }
                lemma_pow2_unfold((32 - (e - 1)) as nat);
            }
            m = m * 2;
            e = e - 1;
        }
    } else {
        proof {
            lemma2_to64();
            assert(pow2(0) * m as int == m as int) by (nonlinear_arith)
                requires pow2(0) == 1;
        }
        while m >= 0x2_0000_0000
            invariant
                0x1_0000_0000 <= m,
                32 <= e <= 64,
                pow2((e - 32) as nat) * m as int <= x as int,
                log2_norm_down(m as int, e as int) == norm,
            decreases m,
        {
            proof {
                let p = pow2((e - 32) as nat) as int;
                lemma_pow2_pos((e - 32) as nat);
                lemma_pow2_unfold((e - 31) as nat);
                assert(2 * p * (m as int / 2) <= p * m) by (nonlinear_arith)
                    requires p >= 1, m >= 2;
                if e == 64 {
                    lemma2_to64();
                    assert(pow2(32) * m as int > x as int) by (nonlinear_arith)
                        requires
                            pow2(32) == 0x1_0000_0000,
                            m as int >= 0x1_0000_0000,
                            (x as int) < 0x1_0000_0000_0000_0000,
                    ;
                }
            }
            m = m / 2;
            e = e + 1;
        }
    }
    proof {
        assert(log2_norm_up(m as int, e as int) == (m as int, e as int));
        assert(log2_norm_down(m as int, e as int) == (m as int, e as int));
    }
    let ghost m0 = m as int;
    let mut frac: i64 = 0;
    let mut i: usize = 0;
    proof {
        lemma2_to64();
    }
    while i < 16
        invariant
            0x1_0000_0000 <= m < 0x2_0000_0000,
            0 <= i <= 16,
            0 <= frac < pow2(i as nat),
            log2_frac_spec(m as int, (16 - i) as nat, frac as int) == log2_frac_spec(m0, 16, 0),
        decreases 16 - i,
    {
        proof {
            assert((m as u128) * (m as u128) < 0x4_0000_0000_0000_0000) by (nonlinear_arith)
                requires (m as u128) < 0x2_0000_0000;
            assert((m as u128) * (m as u128) >= 0x1_0000_0000 * 0x1_0000_0000) by (nonlinear_arith)
                requires (m as u128) >= 0x1_0000_0000;
        }
        let sq: u128 = (m as u128) * (m as u128) / 0x1_0000_0000;
        let bit: i64;
        if sq >= 0x2_0000_0000 {
            m = (sq / 2) as u64;
            bit = 1;
        } else {
            m = sq as u64;
            bit = 0;
        }
        proof {
            lemma_pow2_unfold((i + 1) as nat);
            lemma2_to64();
            if i + 1 < 16 {
                lemma_pow2_strictly_increases((i + 1) as nat, 16);
            }
        }
        frac = frac * 2 + bit;
        i = i + 1;
    }
    proof {
        lemma2_to64();
        assert(log2_frac_spec(m as int, 0, frac as int) == frac as int);
    }
    e * 65536 + frac
}

} // verus!
