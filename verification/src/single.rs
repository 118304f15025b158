//! Single-precision rounding carried out on integers.
//!
//! The bitrate controller scales its targets by 0.75 and 0.9 in single
//! precision. A single-precision number has 24 significant bits, so the whole
//! computation can be followed exactly on integers: a value is rounded to 24
//! significant bits, ties to even, after every operation. Multiplying by a
//! power of two never rounds, which lets a fractional factor be written as an
//! integer over a power of two.

use vstd::arithmetic::power2::{lemma2_to64, lemma_pow2_unfold, pow2};
use vstd::prelude::*;

verus! {

/// One more than the largest integer below which every integer is a
/// single-precision number.
pub const SIGNIFICAND_LIMIT: u64 = 0x100_0000;

/// Distance between neighbouring single-precision numbers around `n`.
pub open spec fn single_spacing(n: nat) -> nat
    decreases n,
{
    if n < SIGNIFICAND_LIMIT {
        1
    } else {
        2 * single_spacing(n / 2)
    }
}

/// `n` rounded to the nearest multiple of `step`, halfway cases to the even
/// multiple.
pub open spec fn round_half_even(n: nat, step: nat) -> nat
    recommends
        step > 0,
{
    let q = n / step;
    let r = n % step;
    if 2 * r > step || (2 * r == step && q % 2 == 1) {
        (q + 1) * step
    } else {
        q * step
    }
}

/// The single-precision number nearest to `n`.
pub open spec fn nearest_single(n: nat) -> nat {
    round_half_even(n, single_spacing(n))
}

/// Spacing is at least one and leaves at least 23 bits below `n`.
pub proof fn lemma_spacing_bounds(n: nat)
    ensures
        1 <= single_spacing(n),
        n >= SIGNIFICAND_LIMIT ==> single_spacing(n) * 0x80_0000 <= n,
        n < single_spacing(n) * SIGNIFICAND_LIMIT,
    decreases n,
{
    if n >= SIGNIFICAND_LIMIT {
        lemma_spacing_bounds(n / 2);
    }
}

/// Rounding moves a number by at most half the spacing.
pub proof fn lemma_round_error(n: nat, step: nat)
    requires
        step > 0,
    ensures
        2 * round_half_even(n, step) <= 2 * n + step,
        2 * n <= 2 * round_half_even(n, step) + step,
{
    let q = (n / step) as int;
    let r = (n % step) as int;
    let s = step as int;
    assert(n == q * s + r && 0 <= r < s) by {
        vstd::arithmetic::div_mod::lemma_fundamental_div_mod(n as int, s);
        vstd::arithmetic::mul::lemma_mul_is_commutative(q, s);
    }
    assert((q + 1) * s == q * s + s) by (nonlinear_arith);
}

/// Integers below the significand limit are exact.
pub proof fn lemma_small_is_exact(n: nat)
    requires
        n < SIGNIFICAND_LIMIT,
    ensures
        nearest_single(n) == n,
{
    assert(single_spacing(n) == 1);
    assert(n / 1 == n && n % 1 == 0);
}

/// Spacing is a power of two: for a number below 2^(24 + `e`) it divides 2^`e`,
/// and the result is the quotient.
pub proof fn lemma_spacing_divides(n: nat, e: nat) -> (m: nat)
    requires
        n < SIGNIFICAND_LIMIT * pow2(e),
    ensures
        single_spacing(n) * m == pow2(e),
    decreases e,
{
    if n < SIGNIFICAND_LIMIT {
        assert(1 * pow2(e) == pow2(e));
        pow2(e)
    } else {
        lemma2_to64();
        assert(e > 0);
        lemma_pow2_unfold(e);
        let m = lemma_spacing_divides(n / 2, (e - 1) as nat);
        let half = single_spacing(n / 2);
        assert((2 * half) * m == 2 * (half * m)) by (nonlinear_arith);
        m
    }
}

/// A number closer to a multiple of the step than half a step is rounded to
/// that multiple.
pub proof fn lemma_round_to_near_multiple(n: nat, step: nat, k: nat)
    requires
        step > 0,
        n <= k * step,
        2 * (k * step - n) < step,
    ensures
        round_half_even(n, step) == k * step,
{
    let s = step as int;
    let gap = k * step - n;
    if gap == 0 {
        vstd::arithmetic::div_mod::lemma_fundamental_div_mod_converse(n as int, s, k as int, 0);
    } else {
        assert(k > 0) by {
            if k == 0 {
                assert(k * step == 0) by (nonlinear_arith)
                    requires
                        k == 0,
                ;
            }
        }
        assert((k - 1) * s == k * s - s) by (nonlinear_arith);
        vstd::arithmetic::mul::lemma_mul_is_commutative(k - 1, s);
        vstd::arithmetic::div_mod::lemma_fundamental_div_mod_converse(
            n as int,
            s,
            k - 1,
            s - gap,
        );
    }
}

fn spacing(n: u64) -> (s: u64)
    ensures
        s == single_spacing(n as nat),
    decreases n,
{
    if n < SIGNIFICAND_LIMIT {
        1
    } else {
        let half = spacing(n / 2);
        proof {
            lemma_spacing_bounds((n / 2) as nat);
        }
        2 * half
    }
}

/// Rounds `n` to the nearest single-precision number, ties to even.
pub fn round_to_single(n: u64) -> (r: u64)
    requires
        n < 0x4000_0000_0000_0000,
    ensures
        r == nearest_single(n as nat),
{
    let step = spacing(n);
    proof {
        lemma_spacing_bounds(n as nat);
        vstd::arithmetic::div_mod::lemma_fundamental_div_mod(n as int, step as int);
        vstd::arithmetic::mul::lemma_mul_is_commutative((n / step) as int, step as int);
    }
    let q = n / step;
    let rem = n % step;
    assert((q + 1) * step == q * step + step) by (nonlinear_arith);
    assert(q * step <= n);
    if rem > step - rem || (rem == step - rem && q % 2 == 1) {
        (q + 1) * step
    } else {
        q * step
    }
}

/// A number is rounded to a multiple of the spacing around it, and no other multiple
/// is closer; of two that are as close the even one is taken.
pub proof fn law_nearest_single(n: nat, k: nat)
    ensures
        ({
            let step = single_spacing(n);
            let r = nearest_single(n);
            let distance = if r > n {
                r - n
            } else {
                n - r
            };
            let other = if k * step > n {
                k * step - n
            } else {
                n - k * step
            };
            &&& step > 0
            &&& r % step == 0
            &&& distance <= other
            &&& distance == other && k * step != r ==> (r / step) % 2 == 0
        }),
{
    let step = single_spacing(n) as int;
    lemma_spacing_bounds(n);
    let q = n as int / step;
    let m = n as int % step;
    let r = nearest_single(n) as int;
    vstd::arithmetic::div_mod::lemma_fundamental_div_mod(n as int, step);
    vstd::arithmetic::mul::lemma_mul_is_commutative(q, step);
    let top = if r == q * step {
        q
    } else {
        q + 1
    };
    assert((q + 1) * step == q * step + step) by (nonlinear_arith);
    vstd::arithmetic::div_mod::lemma_fundamental_div_mod_converse(r, step, top, 0);
    let kk = k as int;
    assert(kk <= q ==> kk * step <= q * step) by (nonlinear_arith)
        requires
            step > 0,
    ;
    assert(kk >= q + 1 ==> kk * step >= (q + 1) * step) by (nonlinear_arith)
        requires
            step > 0,
    ;
    assert(kk < q ==> kk * step <= q * step - step) by (nonlinear_arith)
        requires
            step > 0,
    ;
    assert(kk > q + 1 ==> kk * step >= (q + 1) * step + step) by (nonlinear_arith)
        requires
            step > 0,
    ;
}

/// The spacing is the one that leaves 24 significant bits: one below 2^24, and from
/// there on it doubles with the number.
pub proof fn law_spacing_leaves_24_bits(n: nat)
    ensures
        n < 0x100_0000 ==> single_spacing(n) == 1,
        n >= 0x100_0000 ==> 0x80_0000 * single_spacing(n) <= n < 0x100_0000 * single_spacing(n),
        n >= 0x100_0000 ==> single_spacing(n) == 2 * single_spacing(n / 2),
{
    lemma_spacing_bounds(n);
}

} // verus!
