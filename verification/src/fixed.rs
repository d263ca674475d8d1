//! Fixed-point arithmetic behind the Elo formulas.
//!
//! Everything the library computes is carried in integers:
//!
//! * ratings, K-factors and expected scores are `i64` values scaled by
//!   [`SCALE`] (one unit is a millionth of a point);
//! * the logistic curve needs `10^(d / 400)` for a rating gap `d`, which is
//!   computed here as a binary-exponentiation product over a table of
//!   `10^(2^-k)` constants, each scaled by [`FRAC_ONE`].
//!
//! The executable functions return exactly the value of their spec-level
//! mirrors, so the contracts of the public Elo functions pin their results
//! down to the last unit.

use vstd::prelude::*;

verus! {

use vstd::arithmetic::div_mod::{
    lemma_div_denominator, lemma_div_is_ordered, lemma_div_is_ordered_by_denominator,
    lemma_div_multiples_vanish, lemma_div_of0, lemma_div_pos_is_pos, lemma_small_mod,
};
use vstd::arithmetic::mul::lemma_mul_inequality;
use vstd::arithmetic::power2::{lemma2_to64, lemma_pow2_pos, lemma_pow2_unfold, pow2};

/// One rating point, one K-factor point and a certain win all equal this
/// many fixed-point units.
pub const SCALE: i64 = 1_000_000;

/// The expected score of either player when both ratings are equal.
pub const HALF_SCALE: i64 = 500_000;

/// Largest magnitude a rating may have on the way into an update
/// (a million million points), so that adding a K-factor cannot overflow.
pub const RATING_LIMIT: i64 = 1_000_000_000_000_000_000;

/// Largest K-factor accepted (a million points), far beyond any real
/// configuration but small against [`RATING_LIMIT`].
pub const K_LIMIT: i64 = 1_000_000_000_000;

/// Fixed-point one for the power table: the table constants and the running
/// product in [`spec_frac_pow`] are scaled by this.
pub const FRAC_ONE: u64 = 1_000_000_000;

/// Saturation bound for the power product, ten times [`FRAC_ONE`].
/// The fractional exponent is below one, so the true product stays under
/// ten and the bound is never reached; it only keeps the bound reasoning
/// linear.
pub const POW_CAP: u64 = 10_000_000_000;

/// Number of binary digits kept of the fractional exponent.
pub const FRAC_BITS: u64 = 20;

/// `2^FRAC_BITS`, the denominator of the quantised exponent.
pub const FRAC_UNITS: i64 = 1_048_576;

/// The exponent of the logistic curve is `d / (400 points)`; this is that
/// denominator in fixed-point units.
pub const EXP_DEN: i64 = 400_000_000;

/// A rating gap at or above this (2800 points) drives the weak side's
/// expected score to zero fixed-point units, so the power table is not
/// consulted beyond it.
pub const DIFF_CAP: i64 = 2_800_000_000;

/// `10^(2^(i - 20))` scaled by [`FRAC_ONE`]: entry `i` is the factor for bit
/// `i` of the quantised fractional exponent, so entry 19 is `10^(1/2)` and
/// entry 0 is `10^(2^-20)`.
pub open spec fn frac_pow_const(i: int) -> int {
    if i == 0 {
        1_000_002_196
    } else if i == 1 {
        1_000_004_392
    } else if i == 2 {
        1_000_008_784
    } else if i == 3 {
        1_000_017_567
    } else if i == 4 {
        1_000_035_135
    } else if i == 5 {
        1_000_070_272
    } else if i == 6 {
        1_000_140_549
    } else if i == 7 {
        1_000_281_117
    } else if i == 8 {
        1_000_562_313
    } else if i == 9 {
        1_001_124_941
    } else if i == 10 {
        1_002_251_148
    } else if i == 11 {
        1_004_507_364
    } else if i == 12 {
        1_009_035_045
    } else if i == 13 {
        1_018_151_722
    } else if i == 14 {
        1_036_632_928
    } else if i == 15 {
        1_074_607_828
    } else if i == 16 {
        1_154_781_985
    } else if i == 17 {
        1_333_521_432
    } else if i == 18 {
        1_778_279_410
    } else if i == 19 {
        3_162_277_660
    } else {
        FRAC_ONE as int
    }
}

/// Every table entry lies between one and `10^(1/2)` in fixed point.
pub proof fn lemma_frac_pow_const_bounds(i: int)
    ensures
        FRAC_ONE <= frac_pow_const(i) <= 3_162_277_660,
{
}

fn frac_pow_const_at(i: usize) -> (c: u64)
    requires
        i < 20,
    ensures
        c == frac_pow_const(i as int),
{
    if i == 0 {
        1_000_002_196
    } else if i == 1 {
        1_000_004_392
    } else if i == 2 {
        1_000_008_784
    } else if i == 3 {
        1_000_017_567
    } else if i == 4 {
        1_000_035_135
    } else if i == 5 {
        1_000_070_272
    } else if i == 6 {
        1_000_140_549
    } else if i == 7 {
        1_000_281_117
    } else if i == 8 {
        1_000_562_313
    } else if i == 9 {
        1_001_124_941
    } else if i == 10 {
        1_002_251_148
    } else if i == 11 {
        1_004_507_364
    } else if i == 12 {
        1_009_035_045
    } else if i == 13 {
        1_018_151_722
    } else if i == 14 {
        1_036_632_928
    } else if i == 15 {
        1_074_607_828
    } else if i == 16 {
        1_154_781_985
    } else if i == 17 {
        1_333_521_432
    } else if i == 18 {
        1_778_279_410
    } else {
        3_162_277_660
    }
}

/// One step of the power product: multiply two fixed-point factors, drop
/// back to the [`FRAC_ONE`] scale, and saturate at [`POW_CAP`].
pub open spec fn spec_cap_mul(a: int, c: int) -> int {
    let p = (a * c) / (FRAC_ONE as int);
    if p > POW_CAP as int {
        POW_CAP as int
    } else {
        p
    }
}

fn cap_mul(a: u64, c: u64) -> (r: u64)
    requires
        a <= POW_CAP,
        c <= 4_000_000_000,
    ensures
        r == spec_cap_mul(a as int, c as int),
{
    proof {
        assert((a as int) * (c as int) <= 40_000_000_000_000_000_000) by (nonlinear_arith)
            requires
                a <= POW_CAP,
                c <= 4_000_000_000,
                POW_CAP == 10_000_000_000u64,
        ;
        assert((a as int) * (c as int) >= 0) by (nonlinear_arith)
            requires
                0 <= a,
                0 <= c,
        ;
    }
    let p: u128 = (a as u128) * (c as u128) / (FRAC_ONE as u128);
    if p > POW_CAP as u128 {
        POW_CAP
    } else {
        p as u64
    }
}

/// A capped product of two factors that are at least one stays at least as
/// large as the first factor.
pub proof fn lemma_cap_mul_bounds(a: int, c: int)
    requires
        FRAC_ONE <= a <= POW_CAP,
        FRAC_ONE <= c,
    ensures
        a <= spec_cap_mul(a, c) <= POW_CAP,
{
    let f = FRAC_ONE as int;
    lemma_mul_inequality(f, c, a);
    assert(a * f <= a * c) by (nonlinear_arith)
        requires
            f <= c,
            0 <= a,
    ;
    lemma_div_is_ordered(a * f, a * c, f);
    lemma_div_multiples_vanish(a, f);
}

/// The power product over the low `i` bits of the quantised fractional
/// exponent `rem`: factor `frac_pow_const(j)` enters the product exactly
/// when bit `j` of `rem` is set, so for `i == FRAC_BITS` the result is
/// `10^(rem / FRAC_UNITS)` scaled by [`FRAC_ONE`].
pub open spec fn spec_frac_pow(rem: int, i: nat) -> int
    decreases i,
{
    if i == 0 {
        FRAC_ONE as int
    } else {
        let prev = spec_frac_pow(rem, (i - 1) as nat);
        if (rem / pow2((i - 1) as nat) as int) % 2 == 1 {
            spec_cap_mul(prev, frac_pow_const(i - 1))
        } else {
            prev
        }
    }
}

/// The power product lies between one and [`POW_CAP`] in fixed point.
pub proof fn lemma_frac_pow_bounds(rem: int, i: nat)
    ensures
        FRAC_ONE <= spec_frac_pow(rem, i) <= POW_CAP,
    decreases i,
{
    if i > 0 {
        lemma_frac_pow_bounds(rem, (i - 1) as nat);
        if (rem / pow2((i - 1) as nat) as int) % 2 == 1 {
            lemma_frac_pow_const_bounds(i - 1);
            lemma_cap_mul_bounds(spec_frac_pow(rem, (i - 1) as nat), frac_pow_const(i - 1));
        }
    }
}

/// A zero exponent selects no factor, so the product is one.
pub proof fn lemma_frac_pow_zero(i: nat)
    ensures
        spec_frac_pow(0, i) == FRAC_ONE,
    decreases i,
{
    if i > 0 {
        lemma_frac_pow_zero((i - 1) as nat);
        lemma_pow2_pos((i - 1) as nat);
        lemma_div_pos_is_pos(0, pow2((i - 1) as nat) as int);
        lemma_div_is_ordered(0, 0, pow2((i - 1) as nat) as int);
    }
}

/// `10^(rem / FRAC_UNITS)` in [`FRAC_ONE`] fixed point, by binary
/// exponentiation over the table.
fn frac_pow(rem: u64) -> (r: u64)
    requires
        rem < FRAC_UNITS,
    ensures
        r == spec_frac_pow(rem as int, FRAC_BITS as nat),
        FRAC_ONE <= r <= POW_CAP,
{
    let mut acc: u64 = FRAC_ONE;
    let mut bits: u64 = rem;
    let mut i: usize = 0;
    proof {
        lemma2_to64();
    }
    while i < 20
        invariant
            i <= 20,
            bits == rem as int / pow2(i as nat) as int,
            acc == spec_frac_pow(rem as int, i as nat),
            FRAC_ONE <= acc <= POW_CAP,
        decreases 20 - i,
    {
        proof {
            lemma_pow2_pos(i as nat);
            lemma_pow2_unfold((i + 1) as nat);
            lemma_div_denominator(rem as int, pow2(i as nat) as int, 2);
            lemma_frac_pow_const_bounds(i as int);
            lemma_cap_mul_bounds(acc as int, frac_pow_const(i as int));
        }
        if bits % 2 == 1 {
            let c = frac_pow_const_at(i);
            acc = cap_mul(acc, c);
        }
        bits = bits / 2;
        i += 1;
    }
    acc
}

/// The integer powers of ten that the whole part of the exponent can reach:
/// a rating gap below [`DIFF_CAP`] keeps the exponent under seven.
pub open spec fn spec_pow_ten(n: int) -> int {
    if n == 0 {
        1
    } else if n == 1 {
        10
    } else if n == 2 {
        100
    } else if n == 3 {
        1_000
    } else if n == 4 {
        10_000
    } else if n == 5 {
        100_000
    } else if n == 6 {
        1_000_000
    } else {
        1
    }
}

fn pow_ten(n: u64) -> (r: u64)
    requires
        n <= 6,
    ensures
        r == spec_pow_ten(n as int),
{
    if n == 0 {
        1
    } else if n == 1 {
        10
    } else if n == 2 {
        100
    } else if n == 3 {
        1_000
    } else if n == 4 {
        10_000
    } else if n == 5 {
        100_000
    } else {
        1_000_000
    }
}

/// The expected score of the weaker side of a pairing, in [`SCALE`] units,
/// for a rating gap `d >= 0`: the logistic value `1 / (1 + 10^(d / 400))`
/// carried out in fixed point. Gaps of [`DIFF_CAP`] and beyond score zero;
/// they are already far past the point where the quotient rounds to zero.
pub open spec fn spec_weak_score(d: int) -> int
    recommends
        0 <= d,
{
    if d >= DIFF_CAP as int {
        0
    } else {
        let q = (d * FRAC_UNITS as int) / (EXP_DEN as int);
        let n = q / (FRAC_UNITS as int);
        let rem = q % (FRAC_UNITS as int);
        let g = (spec_pow_ten(n) * spec_frac_pow(rem, FRAC_BITS as nat) * (SCALE as int))
            / (FRAC_ONE as int);
        ((SCALE as int) * (SCALE as int)) / ((SCALE as int) + g)
    }
}

/// The weaker side never scores above one half.
pub proof fn lemma_weak_score_bounds(d: int)
    requires
        0 <= d,
    ensures
        0 <= spec_weak_score(d) <= HALF_SCALE,
{
    if d < DIFF_CAP as int {
        let fu = FRAC_UNITS as int;
        let q = (d * fu) / (EXP_DEN as int);
        lemma_div_pos_is_pos(d * fu, EXP_DEN as int);
        lemma_div_is_ordered(d * fu, (DIFF_CAP - 1) as int * fu, EXP_DEN as int);
        let n = q / fu;
        let rem = q % fu;
        lemma_div_pos_is_pos(q, fu);
        // ((DIFF_CAP - 1) * FRAC_UNITS) / EXP_DEN: the largest quantised
        // exponent, just under seven whole powers of ten
        lemma_div_is_ordered(q, 7_340_031, fu);
        let f = spec_frac_pow(rem, FRAC_BITS as nat);
        let p = spec_pow_ten(n);
        lemma_frac_pow_bounds(rem, FRAC_BITS as nat);
        assert(FRAC_ONE as int * 1 <= p * f <= POW_CAP as int * 1_000_000) by (nonlinear_arith)
            requires
                1 <= p <= 1_000_000,
                FRAC_ONE <= f <= POW_CAP,
        ;
        let g = (p * f * (SCALE as int)) / (FRAC_ONE as int);
        lemma_mul_inequality(FRAC_ONE as int, p * f, SCALE as int);
        lemma_mul_inequality(p * f, POW_CAP as int * 1_000_000, SCALE as int);
        assert((p * f) * (SCALE as int) == p * f * (SCALE as int)) by (nonlinear_arith);
        lemma_div_is_ordered(FRAC_ONE as int * (SCALE as int), p * f * (SCALE as int), FRAC_ONE as int);
        lemma_div_pos_is_pos(p * f * (SCALE as int), FRAC_ONE as int);
        assert(g >= SCALE);
        let s = SCALE as int;
        lemma_div_pos_is_pos(s * s, s + g);
        lemma_div_is_ordered_by_denominator(s * s, 2 * s, s + g);
        assert(spec_weak_score(d) <= HALF_SCALE);
    }
}

/// With no rating gap the weaker side is neither side: the score is one
/// half exactly.
pub proof fn lemma_weak_score_zero()
    ensures
        spec_weak_score(0) == HALF_SCALE,
{
    lemma_frac_pow_zero(FRAC_BITS as nat);
    let fu = FRAC_UNITS as int;
    lemma_div_of0(EXP_DEN as int);
    assert((0 * fu) / (EXP_DEN as int) == 0);
    lemma_div_of0(fu);
    lemma_small_mod(0, fu as nat);
    assert(spec_pow_ten(0) == 1);
    assert(spec_frac_pow(0, FRAC_BITS as nat) == FRAC_ONE as int);
    assert(1 * (FRAC_ONE as int) * (SCALE as int) == 1_000_000_000_000_000);
    lemma_div_multiples_vanish(SCALE as int, FRAC_ONE as int);
    assert((1_000_000_000 * 1_000_000) / 1_000_000_000 == 1_000_000int);
    assert(((SCALE as int) * (SCALE as int)) / ((SCALE as int) + 1_000_000) == HALF_SCALE as int);
}

/// The executable counterpart of [`spec_weak_score`].
pub(crate) fn weak_score(d: i64) -> (e: i64)
    requires
        0 <= d,
    ensures
        e == spec_weak_score(d as int),
        0 <= e <= HALF_SCALE,
{
    proof {
        lemma_weak_score_bounds(d as int);
    }
    if d >= DIFF_CAP {
        return 0;
    }
    let q: i64 = (d * FRAC_UNITS) / EXP_DEN;
    proof {
        lemma_div_pos_is_pos(d as int * FRAC_UNITS as int, EXP_DEN as int);
        lemma_div_is_ordered(
            d as int * FRAC_UNITS as int,
            (DIFF_CAP - 1) as int * FRAC_UNITS as int,
            EXP_DEN as int,
        );
        lemma_div_pos_is_pos(q as int, FRAC_UNITS as int);
        lemma_div_is_ordered(q as int, 7_340_031, FRAC_UNITS as int);
    }
    let n: u64 = (q / FRAC_UNITS) as u64;
    let rem: u64 = (q % FRAC_UNITS) as u64;
    let f = frac_pow(rem);
    let p = pow_ten(n);
    proof {
        assert(FRAC_ONE as int * 1 <= p as int * f as int <= POW_CAP as int * 1_000_000)
            by (nonlinear_arith)
            requires
                1 <= p <= 1_000_000,
                FRAC_ONE <= f <= POW_CAP,
        ;
        assert((p as int * f as int) * (SCALE as int) == p as int * f as int * (SCALE as int))
            by (nonlinear_arith);
        lemma_mul_inequality(FRAC_ONE as int, p as int * f as int, SCALE as int);
        lemma_mul_inequality(p as int * f as int, POW_CAP as int * 1_000_000, SCALE as int);
        lemma_div_is_ordered(
            FRAC_ONE as int * (SCALE as int),
            p as int * f as int * (SCALE as int),
            FRAC_ONE as int,
        );
        lemma_div_pos_is_pos(p as int * f as int * (SCALE as int), FRAC_ONE as int);
    }
    let g: i64 = ((p as u128 * f as u128 * SCALE as u128) / FRAC_ONE as u128) as i64;
    (SCALE * SCALE) / (SCALE + g)
}

} // verus!
