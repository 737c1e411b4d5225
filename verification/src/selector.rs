//! The snapped binary choice: a two-outcome randomized rounding primitive
//! weighted in the style of the exponential mechanism.
//!
//! The bit-width `k(epsilon)` and the rounding granularity are computed here
//! exactly, over the dyadic representation `m * 2^e` of the parameters; the
//! single transcendental weight `exp(-r * epsilon / delta_r)` and the uniform
//! draw live in the unverified shell, which hands the verified code the final
//! comparison outcome.

use vstd::prelude::*;
use vstd::arithmetic::power2::{pow2, lemma_pow2_unfold, lemma2_to64};
use vstd::arithmetic::div_mod::lemma_fundamental_div_mod_converse;
use crate::granularity::{ceil_log2_u64, lemma_pow2_le, pow2_u64};
use crate::ParameterError;

verus! {

/// Floor of the base-two logarithm, for `m >= 1`.
pub open spec fn floor_log2(m: nat) -> nat
    decreases m,
{
    if m <= 1 {
        0
    } else {
        (1 + floor_log2((m / 2) as nat)) as nat
    }
}

/// Proof that `floor_log2` brackets its argument between two powers of two.
pub proof fn lemma_floor_log2_bounds(m: nat)
    requires
        1 <= m,
    ensures
        pow2(floor_log2(m)) <= m < pow2((floor_log2(m) + 1) as nat),
    decreases m,
{
    if m <= 1 {
        lemma2_to64();
    } else {
        lemma_floor_log2_bounds((m / 2) as nat);
        let f = floor_log2((m / 2) as nat);
        lemma_pow2_unfold((f + 1) as nat);
        lemma_pow2_unfold((f + 2) as nat);
    }
}

/// Proof that the power-of-two bracket determines `floor_log2` uniquely.
pub proof fn lemma_floor_log2_unique(m: nat, b: nat)
    requires
        1 <= m,
        pow2(b) <= m,
        m < pow2((b + 1) as nat),
    ensures
        floor_log2(m) == b,
{
    lemma_floor_log2_bounds(m);
    let f = floor_log2(m);
    if f < b {
        lemma_pow2_le((f + 1) as nat, b);
    }
    if b < f {
        lemma_pow2_le((b + 1) as nat, f);
    }
}

/// Whether the mantissa is itself a power of two, so that the represented
/// value `m * 2^e` is an exact power of two.
pub open spec fn mantissa_exact(m: nat) -> bool {
    m == pow2(floor_log2(m))
}

/// The exact value of `floor(1 + log2(2 / epsilon))` for `epsilon = m * 2^e`
/// with `m >= 1`: the quantity the bit-width adds to its base of ten.
pub open spec fn k_addition(m: nat, e: int) -> int {
    if mantissa_exact(m) {
        2 - (e + floor_log2(m))
    } else {
        1 - (e + floor_log2(m))
    }
}

/// Floor of the base-two logarithm, executable form.
pub fn floor_log2_u64(m: u64) -> (b: u32)
    requires
        1 <= m,
    ensures
        b == floor_log2(m as nat),
        b <= 63,
        pow2(b as nat) <= m < pow2((b + 1) as nat),
{
    let mut b: u32 = 0;
    let mut p: u64 = 1;
    proof {
        lemma2_to64();
    }
    while p <= m / 2
        invariant
            1 <= m,
            p == pow2(b as nat),
            p <= m,
            b <= 63,
        decreases m - p,
    {
        proof {
            lemma2_to64();
            vstd::arithmetic::power2::lemma2_to64_rest();
            if (b as nat) >= 63 {
                lemma_pow2_le(63, b as nat);
            }
            lemma_pow2_unfold((b + 1) as nat);
        }
        p = p * 2;
        b = b + 1;
    }
    proof {
        lemma_pow2_unfold((b + 1) as nat);
        lemma_floor_log2_unique(m as nat, b as nat);
    }
    b
}

/// The bit-width `k(epsilon) = 10 + floor(1 + log2(2 / epsilon))`, computed
/// exactly over the dyadic representation `epsilon = m * 2^e`.
///
/// Fails exactly when the addition reaches `107`, that is when
/// `epsilon <= 2^-105`; every `epsilon` below `10^-32` lies in that range, so
/// no admissible input can push the bit-width past its bound.  The exponent
/// bound in `requires` covers every binary exponent a finite double can
/// carry.
pub fn k_value(m: u64, e: i32) -> (r: Result<i32, ParameterError>)
    requires
        1 <= m,
        -1100 <= e <= 1100,
    ensures
        (r is Err) <==> 107 <= k_addition(m as nat, e as int),
        match r {
            Ok(kk) => kk == 10 + k_addition(m as nat, e as int),
            Err(_) => true,
        },
{
    let b = floor_log2_u64(m);
    let p = pow2_u64(b);
    let exact = p == m;
    let l: i64 = e as i64 + b as i64;
    let a: i64 = if exact {
        2 - l
    } else {
        1 - l
    };
    if a >= 107 {
        Err(ParameterError)
    } else {
        Ok((10 + a) as i32)
    }
}

/// Exponent of the selector's rounding granularity: the smallest power of
/// two at or above `minimum`, where the caller computes
/// `minimum = floor(delta / epsilon * 2^k) + 1`.
pub fn r_exponent(minimum: u64) -> (j: u32)
    requires
        1 <= minimum,
    ensures
        j <= 64,
        minimum <= pow2(j as nat),
        1 <= j ==> pow2((j - 1) as nat) < minimum,
{
    ceil_log2_u64(minimum)
}

/// Ceiling division, for `1 <= b`.
pub open spec fn ceil_div(a: int, b: int) -> int {
    (a + b - 1) / b
}

/// `ceil(m / 2^sh)`: the factor by which the rounding granularity is
/// multiplied to round `delta` up to its nearest multiple.
pub fn ceil_div_pow2(m: u64, sh: u32) -> (r: u64)
    ensures
        r == ceil_div(m as int, pow2(sh as nat) as int),
{
    if sh >= 64 {
        let ghost pw = pow2(sh as nat) as int;
        proof {
            lemma2_to64();
            lemma_pow2_le(64, sh as nat);
            if m == 0 {
                lemma_fundamental_div_mod_converse(m as int + pw - 1, pw, 0, pw - 1);
            } else {
                lemma_fundamental_div_mod_converse(m as int + pw - 1, pw, 1, m as int - 1);
            }
        }
        if m == 0 {
            0
        } else {
            1
        }
    } else {
        let p = pow2_u64(sh);
        proof {
            vstd::arithmetic::power2::lemma_pow2_pos(sh as nat);
        }
        let q = m / p;
        let rem = m % p;
        proof {
            vstd::arithmetic::div_mod::lemma_fundamental_div_mod(m as int, p as int);
            assert((q as int + 1) * (p as int) == q as int * (p as int) + p as int)
                by (nonlinear_arith);
            assert((p as int) * (q as int) == (q as int) * (p as int)) by (nonlinear_arith);
            if rem != 0 {
                lemma2_to64();
                vstd::arithmetic::div_mod::lemma_div_is_ordered_by_denominator(
                    m as int,
                    2,
                    p as int,
                );
            }
            if rem == 0 {
                lemma_fundamental_div_mod_converse(
                    m as int + p as int - 1,
                    p as int,
                    q as int,
                    p as int - 1,
                );
            } else {
                lemma_fundamental_div_mod_converse(
                    m as int + p as int - 1,
                    p as int,
                    q as int + 1,
                    rem as int - 1,
                );
            }
        }
        if rem == 0 {
            q
        } else {
            q + 1
        }
    }
}

/// Final decision of the binary selector: outcome `0` exactly when the
/// uniform draw fell at or below the normalized weight of outcome `0`; the
/// result is never anything but `0` or `1`.
pub fn select_outcome(sample_at_most_p0: bool) -> (r: u64)
    ensures
        r == (if sample_at_most_p0 { 0u64 } else { 1u64 }),
        r <= 1,
{
    if sample_at_most_p0 {
        0
    } else {
        1
    }
}

} // verus!
