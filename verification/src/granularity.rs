//! Granularity calculation on exact dyadic values.
//!
//! A positive input is represented as `m * 2^e` (mantissa `m`, binary exponent
//! `e`), so the power-of-two search is carried out exactly in integers: the
//! result is reported as a binary exponent, never as a rounded value.

use vstd::prelude::*;
use vstd::arithmetic::power2::{
    pow2, lemma_pow2_unfold, lemma_pow2_strictly_increases, lemma2_to64, lemma2_to64_rest,
};
use crate::ParameterError;

verus! {

/// Proof that `pow2` is monotone (non-strict form).
pub proof fn lemma_pow2_le(e1: nat, e2: nat)
    requires
        e1 <= e2,
    ensures
        pow2(e1) <= pow2(e2),
{
    if e1 < e2 {
        lemma_pow2_strictly_increases(e1, e2);
    }
}

/// Smallest `k` with `2^k >= m`, for `m >= 1`, found by repeated doubling.
pub fn ceil_log2_u64(m: u64) -> (k: u32)
    requires
        1 <= m,
    ensures
        k <= 64,
        m <= pow2(k as nat),
        1 <= k ==> pow2((k - 1) as nat) < m,
{
    let mut k: u32 = 0;
    let mut p: u64 = 1;
    proof {
        lemma2_to64();
    }
    while p < m && k < 63
        invariant
            1 <= m,
            k <= 63,
            p == pow2(k as nat),
            1 <= k ==> pow2((k - 1) as nat) < m,
        decreases 63 - k,
    {
        proof {
            lemma2_to64();
            lemma2_to64_rest();
            if (k as nat) < 62 {
                lemma_pow2_strictly_increases(k as nat, 62);
            }
            lemma_pow2_unfold((k + 1) as nat);
        }
        p = p * 2;
        k = k + 1;
    }
    if p < m {
        proof {
            lemma2_to64();
            lemma2_to64_rest();
        }
        64
    } else {
        k
    }
}

/// Executable power of two, by repeated doubling.
pub fn pow2_u64(k: u32) -> (r: u64)
    requires
        k <= 63,
    ensures
        r == pow2(k as nat),
{
    let mut i: u32 = 0;
    let mut p: u64 = 1;
    proof {
        lemma2_to64();
    }
    while i < k
        invariant
            i <= k <= 63,
            p == pow2(i as nat),
        decreases k - i,
    {
        proof {
            lemma2_to64();
            lemma2_to64_rest();
            if (i as nat) < 62 {
                lemma_pow2_strictly_increases(i as nat, 62);
            }
            lemma_pow2_unfold((i + 1) as nat);
        }
        p = p * 2;
        i = i + 1;
    }
    p
}

/// `ceil(log2(m * 2^e))` for `m >= 1`, exact over the dyadic representation:
/// the smallest `r` with `2^r >= m * 2^e`.  The random-bit budget of the
/// sampler is this quantity taken of `6 ln(10)` times the granularity over
/// the rate parameter.
pub fn ceil_log2_exponent(m: u64, e: i32) -> (r: i64)
    requires
        1 <= m,
    ensures
        e <= r <= e + 64,
        m <= pow2((r - e) as nat),
        e < r ==> pow2((r - e - 1) as nat) < m,
{
    let k = ceil_log2_u64(m);
    e as i64 + k as i64
}

/// Binary exponent of the smallest power of two `>= m * 2^e` that the
/// doubling search reaches: the search starts at `2^0`, so inputs at or below
/// one (the zero input included) yield exponent `0`, that is the value `1`.
///
/// Fails when the input is negative or exceeds `2^1023`.
pub fn ceil_pow2_exponent(negative: bool, m: u64, e: i32) -> (r: Result<i32, ParameterError>)
    requires
        negative ==> 1 <= m,
    ensures
        negative ==> r == Err::<i32, ParameterError>(ParameterError),
        !negative && m == 0 ==> r == Ok::<i32, ParameterError>(0i32),
        !negative && 1 <= m ==> match r {
            Ok(c) => 0 <= c <= 1023
                && e <= c
                && m <= pow2((c - e) as nat)
                && (1 <= c ==> (c - 1 - e < 0 || pow2((c - 1 - e) as nat) < m)),
            Err(_) => true,
        },
        !negative && 1 <= m && e <= 1023 ==> ((r is Err) <==> pow2((1023 - e) as nat) < m),
        !negative && 1 <= m && 1023 < e ==> r is Err,
{
    if negative {
        return Err(ParameterError);
    }
    if m == 0 {
        return Ok(0);
    }
    let k = ceil_log2_u64(m);
    let c64: i64 = e as i64 + k as i64;
    if c64 > 1023 {
        proof {
            if e <= 1023 {
                // k - 1 >= 1023 - e, so 2^(1023 - e) <= 2^(k - 1) < m.
                lemma_pow2_le((1023 - e) as nat, (k - 1) as nat);
            }
        }
        Err(ParameterError)
    } else {
        let c: i64 = if c64 < 0 { 0 } else { c64 };
        proof {
            // m <= 2^k <= 2^(c - e), since c - e >= k.
            lemma_pow2_le(k as nat, (c - e) as nat);
            if e <= 1023 {
                lemma_pow2_le(k as nat, (1023 - e) as nat);
            }
        }
        Ok(c as i32)
    }
}

/// Exponent of the granularity: the power-of-two ceiling of the
/// sensitivity/epsilon ratio, divided by the fixed reserve of `2^40`.
///
/// The ratio is supplied as the dyadic value `m * 2^e`; the granularity is
/// exactly `2^g` for the returned `g`, which always lies in `[-40, 983]`.
pub fn granularity_exponent(m: u64, e: i32) -> (r: Result<i32, ParameterError>)
    ensures
        m == 0 ==> r == Ok::<i32, ParameterError>(-40i32),
        1 <= m ==> match r {
            Ok(g) => -40 <= g <= 983
                && e <= g + 40
                && m <= pow2((g + 40 - e) as nat)
                && (-39 <= g ==> (g + 39 - e < 0 || pow2((g + 39 - e) as nat) < m)),
            Err(_) => true,
        },
        1 <= m && e <= 1023 ==> ((r is Err) <==> pow2((1023 - e) as nat) < m),
        1 <= m && 1023 < e ==> r is Err,
{
    match ceil_pow2_exponent(false, m, e) {
        Ok(c) => Ok(c - 40),
        Err(err) => Err(err),
    }
}

} // verus!
