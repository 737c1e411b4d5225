//! Decision logic of the geometric samplers.
//!
//! Drawing a geometric sample works by exact-inversion binary search: the
//! floating comparisons against freshly drawn uniform fractions happen in the
//! unverified shell, and each of their outcomes is handed to the verified
//! step below, which narrows the integer interval and is proved to make
//! progress while staying inside `[0, i64::MAX]`.  The two-sided composer's
//! accept/negate decision and the final scaling of the sample are likewise
//! exact integer computations and live here in full.

use vstd::prelude::*;
use vstd::arithmetic::power2::{pow2, lemma2_to64, lemma2_to64_rest};
use crate::granularity::{lemma_pow2_le, pow2_u64};

verus! {

/// The midpoint candidate clamped strictly inside `(left, right)`.
pub open spec fn clamped_mid(left: int, right: int, candidate: int) -> int {
    if candidate < left + 1 {
        left + 1
    } else if candidate > right - 1 {
        right - 1
    } else {
        candidate
    }
}

/// Clamp the closed-form midpoint guess strictly inside `(left, right)`, so
/// that narrowing to either half always shrinks the interval.
pub fn clamp_mid(left: i64, right: i64, candidate: i64) -> (mid: i64)
    requires
        0 <= left,
        left + 1 < right,
    ensures
        mid == clamped_mid(left as int, right as int, candidate as int),
        left < mid < right,
{
    let lo = left + 1;
    let hi = right - 1;
    if candidate < lo {
        lo
    } else if candidate > hi {
        hi
    } else {
        candidate
    }
}

/// One narrowing step of the inversion binary search.
///
/// `mid` is the clamped midpoint; `go_left` reports whether the fresh
/// uniform draw fell at or below the conditional probability mass of the
/// left half of the interval.  The new interval is strictly smaller and
/// stays inside `[0, right]`, so the search terminates and its result
/// always lies in `[1, i64::MAX]`.
pub fn bisect_step(left: i64, right: i64, mid: i64, go_left: bool) -> (r: (i64, i64))
    requires
        0 <= left,
        left < mid < right,
    ensures
        go_left ==> r.0 == left && r.1 == mid,
        !go_left ==> r.0 == mid && r.1 == right,
        0 <= r.0 < r.1 <= right,
        left <= r.0,
        r.1 - r.0 < right - left,
        1 <= r.1,
{
    if go_left {
        (left, mid)
    } else {
        (mid, right)
    }
}

/// Outcome of one round of the two-sided composer, over the geometric sample
/// (always at least `1`) and the drawn sign bit: `None` asks for another
/// round, `Some(v)` accepts `v`.
pub open spec fn two_sided_spec(sample: int, positive: bool) -> Option<int> {
    let shifted = sample - 1;
    if shifted == 0 && !positive {
        None
    } else if positive {
        Some(shifted)
    } else {
        Some(-shifted)
    }
}

/// Accept/reject decision of the two-sided geometric composer.
///
/// A magnitude of zero is only ever accepted with a positive sign, so zero
/// has a single representation and the accepted distribution is symmetric.
/// The negation is proved never to wrap: the shifted sample is non-negative,
/// so its negation stays strictly above `i64::MIN`.
pub fn two_sided_outcome(sample: i64, positive: bool) -> (r: Option<i64>)
    requires
        1 <= sample,
    ensures
        match r {
            Some(v) => two_sided_spec(sample as int, positive) == Some(v as int)
                && -i64::MAX <= v,
            None => two_sided_spec(sample as int, positive) is None,
        },
        r is None <==> (sample == 1 && !positive),
{
    let shifted = sample - 1;
    if shifted == 0 && !positive {
        None
    } else if positive {
        Some(shifted)
    } else {
        Some(-shifted)
    }
}

/// Law: the accepted two-sided outcomes are symmetric around zero.  For every
/// magnitude `sample - 1 >= 1`, the positive and the negative sign produce
/// exactly opposite values, and magnitude zero is accepted only with the
/// positive sign, as the single representation of zero.
pub proof fn lemma_two_sided_symmetric(sample: int)
    requires
        1 <= sample,
    ensures
        2 <= sample ==> two_sided_spec(sample, true) == Some(sample - 1)
            && two_sided_spec(sample, false) == Some(1 - sample),
        sample == 1 ==> two_sided_spec(sample, true) == Some(0int)
            && two_sided_spec(sample, false) is None,
{
}

/// Absolute value, for stating the scaling contracts.
pub open spec fn abs_int(s: int) -> int {
    if s >= 0 {
        s
    } else {
        -s
    }
}

/// `s * 2^(-mshift)` rounded to the nearest integer, halves away from zero.
pub open spec fn round_half_away_div_pow2(s: int, mshift: nat) -> int {
    if mshift == 0 {
        s
    } else {
        let q = (abs_int(s) + pow2((mshift - 1) as nat)) / (pow2(mshift) as int);
        if s >= 0 {
            q
        } else {
            -q
        }
    }
}

/// Scale an accepted two-sided sample by the granularity `2^g_exp`.
///
/// A granularity above one is an exact power of two, so the product is a pure
/// integer multiplication; a granularity at or below one scales down by a
/// power of two and rounds to the nearest integer, halves away from zero.
pub fn scale_sample(sample: i64, g_exp: i32) -> (r: i64)
    requires
        -40 <= g_exp <= 983,
        -i64::MAX <= sample,
        1 <= g_exp ==> abs_int(sample as int) * pow2(g_exp as nat) <= i64::MAX,
    ensures
        1 <= g_exp ==> r == sample * pow2(g_exp as nat),
        g_exp <= 0 ==> r == round_half_away_div_pow2(sample as int, (-g_exp) as nat),
{
    if g_exp >= 64 {
        proof {
            // 2^g_exp alone exceeds i64::MAX, so the sample must be zero.
            lemma2_to64();
            lemma_pow2_le(64, g_exp as nat);
            let a = abs_int(sample as int);
            let pw = pow2(g_exp as nat) as int;
            assert(1 <= a ==> pw <= a * pw) by (nonlinear_arith)
                requires
                    0 <= pw,
            ;
            assert(sample == 0);
            assert(sample * pow2(g_exp as nat) == 0) by (nonlinear_arith)
                requires
                    sample == 0,
            ;
        }
        0
    } else if g_exp >= 1 {
        let factor = pow2_u64(g_exp as u32);
        proof {
            // |sample| * factor fits, so the signed product does too.
            assert(abs_int(sample as int) * pow2(g_exp as nat) <= i64::MAX);
        }
        let mag: u64 = if sample >= 0 {
            sample as u64
        } else {
            (-sample) as u64
        };
        let scaled: u64 = mag * factor;
        proof {
            assert(mag * factor == abs_int(sample as int) * pow2(g_exp as nat));
            let a = abs_int(sample as int);
            let pw = pow2(g_exp as nat) as int;
            assert(sample < 0 ==> sample * pw == -(a * pw)) by (nonlinear_arith)
                requires
                    sample < 0 ==> a == -sample,
            ;
        }
        if sample >= 0 {
            scaled as i64
        } else {
            -(scaled as i64)
        }
    } else if g_exp == 0 {
        sample
    } else {
        let mshift: u32 = (-g_exp) as u32;
        let half = pow2_u64(mshift - 1);
        let divisor = pow2_u64(mshift);
        let mag: u64 = if sample >= 0 {
            sample as u64
        } else {
            (-sample) as u64
        };
        proof {
            // mag <= 2^63 - 1 and half <= 2^39, so the sum fits in u64.
            lemma2_to64();
            lemma2_to64_rest();
            lemma_pow2_le((mshift - 1) as nat, 39);
            lemma_pow2_le(1, mshift as nat);
        }
        let q: u64 = (mag + half) / divisor;
        proof {
            // divisor >= 2, so q fits in i64.
            vstd::arithmetic::div_mod::lemma_div_is_ordered_by_denominator(
                (mag + half) as int,
                2,
                divisor as int,
            );
            assert(q <= (mag + half) as int / 2);
        }
        if sample >= 0 {
            q as i64
        } else {
            -(q as i64)
        }
    }
}

} // verus!
