//! The mathematical model of rounded integer division.
//!
//! All five rounding policies are defined here on unbounded integers, by
//! correcting the truncating quotient, together with the facts the rest of
//! the crate is verified against: each policy's quotient is characterised
//! uniquely by the range and sign of the remainder it leaves.

use vstd::arithmetic::div_mod::{lemma_fundamental_div_mod, lemma_mod_bound};
use vstd::prelude::*;

use crate::rounding::Rounding;

verus! {

/// Absolute value of a mathematical integer.
pub open spec fn abs_i(x: int) -> int {
    if x < 0 {
        -x
    } else {
        x
    }
}

/// Quotient of `a / b` truncated towards zero (`b != 0`).
pub open spec fn div_trunc(a: int, b: int) -> int
    recommends
        b != 0,
{
    if (a >= 0) == (b >= 0) {
        abs_i(a) / abs_i(b)
    } else {
        -(abs_i(a) / abs_i(b))
    }
}

/// Remainder left by the truncating division: same sign as `a`, or zero.
pub open spec fn mod_trunc(a: int, b: int) -> int
    recommends
        b != 0,
{
    a - b * div_trunc(a, b)
}

/// Quotient of `a / b` rounded towards negative infinity.
pub open spec fn div_floor(a: int, b: int) -> int
    recommends
        b != 0,
{
    if mod_trunc(a, b) == 0 || ((a >= 0) == (b >= 0)) {
        div_trunc(a, b)
    } else {
        div_trunc(a, b) - 1
    }
}

/// Quotient of `a / b` rounded towards positive infinity.
pub open spec fn div_ceil(a: int, b: int) -> int
    recommends
        b != 0,
{
    if mod_trunc(a, b) == 0 || ((a >= 0) != (b >= 0)) {
        div_trunc(a, b)
    } else {
        div_trunc(a, b) + 1
    }
}

/// Quotient of `a / b` rounded away from zero.
pub open spec fn div_away(a: int, b: int) -> int
    recommends
        b != 0,
{
    if mod_trunc(a, b) == 0 {
        div_trunc(a, b)
    } else if (a >= 0) == (b >= 0) {
        div_trunc(a, b) + 1
    } else {
        div_trunc(a, b) - 1
    }
}

/// Quotient of `a / b` rounded to the nearest integer, ties away from zero.
pub open spec fn div_round(a: int, b: int) -> int
    recommends
        b != 0,
{
    if 2 * abs_i(mod_trunc(a, b)) >= abs_i(b) {
        div_away(a, b)
    } else {
        div_trunc(a, b)
    }
}

/// The quotient of `a / b` under the given rounding policy.
pub open spec fn rounded_div(a: int, b: int, rounding: Rounding) -> int
    recommends
        b != 0,
{
    match rounding {
        Rounding::Round => div_round(a, b),
        Rounding::Floor => div_floor(a, b),
        Rounding::Ceiling => div_ceil(a, b),
        Rounding::TowardsZero => div_trunc(a, b),
        Rounding::AwayFromZero => div_away(a, b),
    }
}

/// What the remainder `a - b * q` of a division of `a` by `b` looks like when
/// `q` is the quotient rounded under `rounding`. Together with
/// [`lemma_rounded_div_unique`] this pins `rounded_div` down: it is the one
/// quotient whose remainder satisfies this predicate.
pub open spec fn rem_pred(rem: int, a: int, b: int, rounding: Rounding) -> bool {
    match rounding {
        Rounding::Floor => if b > 0 {
            0 <= rem < b
        } else {
            b < rem <= 0
        },
        Rounding::Ceiling => if b > 0 {
            -b < rem <= 0
        } else {
            0 <= rem < -b
        },
        Rounding::TowardsZero => abs_i(rem) < abs_i(b) && (a >= 0 ==> rem >= 0) && (a <= 0
            ==> rem <= 0),
        Rounding::AwayFromZero => abs_i(rem) < abs_i(b) && (a >= 0 ==> rem <= 0) && (a <= 0
            ==> rem >= 0),
        Rounding::Round => 2 * abs_i(rem) <= abs_i(b) && (2 * abs_i(rem) == abs_i(b) ==> ((a >= 0
            ==> rem <= 0) && (a <= 0 ==> rem >= 0))),
    }
}

/// The truncating quotient and remainder satisfy the fundamental identity;
/// the remainder is smaller in magnitude than the divisor and has the sign
/// of the dividend.
pub proof fn lemma_trunc_char(a: int, b: int)
    requires
        b != 0,
    ensures
        a == b * div_trunc(a, b) + mod_trunc(a, b),
        abs_i(mod_trunc(a, b)) < abs_i(b),
        a >= 0 ==> 0 <= mod_trunc(a, b),
        a <= 0 ==> mod_trunc(a, b) <= 0,
        abs_i(div_trunc(a, b)) == abs_i(a) / abs_i(b),
{
    let aa = abs_i(a);
    let bb = abs_i(b);
    lemma_fundamental_div_mod(aa, bb);
    lemma_mod_bound(aa, bb);
    let q0 = aa / bb;
    let r0 = aa % bb;
    assert(aa == bb * q0 + r0);
    assert(0 <= q0) by (nonlinear_arith)
        requires
            aa == bb * q0 + r0,
            0 <= aa,
            0 <= r0 < bb,
    ;
    if a >= 0 && b > 0 {
        assert(mod_trunc(a, b) == r0);
    } else if a >= 0 && b < 0 {
        assert(b * -q0 == bb * q0) by (nonlinear_arith)
            requires
                b == -bb,
        ;
        assert(mod_trunc(a, b) == r0);
    } else if a < 0 && b > 0 {
        assert(b * -q0 == -(bb * q0)) by (nonlinear_arith)
            requires
                b == bb,
        ;
        assert(mod_trunc(a, b) == -r0);
    } else {
        assert(b * q0 == -(bb * q0)) by (nonlinear_arith)
            requires
                b == -bb,
        ;
        assert(mod_trunc(a, b) == -r0);
    }
}

/// The remainder left by each policy's rounded quotient satisfies that
/// policy's remainder predicate.
pub proof fn lemma_rounded_div_char(a: int, b: int, rounding: Rounding)
    requires
        b != 0,
    ensures
        rem_pred(a - b * rounded_div(a, b, rounding), a, b, rounding),
{
    lemma_trunc_char(a, b);
    let qt = div_trunc(a, b);
    let rt = mod_trunc(a, b);
    assert(b * (qt + 1) == b * qt + b) by (nonlinear_arith);
    assert(b * (qt - 1) == b * qt - b) by (nonlinear_arith);
    assert(a - b * (qt + 1) == rt - b);
    assert(a - b * (qt - 1) == rt + b);
}

/// Any quotient whose remainder satisfies a policy's remainder predicate is
/// that policy's rounded quotient: the predicate pins the quotient down.
pub proof fn lemma_rounded_div_unique(a: int, b: int, q: int, rounding: Rounding)
    requires
        b != 0,
        rem_pred(a - b * q, a, b, rounding),
    ensures
        q == rounded_div(a, b, rounding),
{
    let qq = rounded_div(a, b, rounding);
    lemma_rounded_div_char(a, b, rounding);
    if q != qq {
        let d = qq - q;
        assert((a - b * q) - (a - b * qq) == b * d) by (nonlinear_arith)
            requires
                d == qq - q,
        ;
        assert(abs_i(b * d) >= abs_i(b)) by (nonlinear_arith)
            requires
                d != 0,
                b != 0,
        ;
        if abs_i(d) >= 2 {
            assert(abs_i(b * d) >= 2 * abs_i(b)) by (nonlinear_arith)
                requires
                    abs_i(d) >= 2,
                    b != 0,
            ;
        }
        assert(false);
    }
}

/// An exact division is returned unchanged by every policy: when `b` divides
/// `a`, the rounded quotient is the exact one.
pub proof fn lemma_exact_division(a: int, b: int, rounding: Rounding)
    requires
        b != 0,
        mod_trunc(a, b) == 0,
    ensures
        rounded_div(a, b, rounding) == div_trunc(a, b),
        b * rounded_div(a, b, rounding) == a,
{
    lemma_trunc_char(a, b);
}

/// A tie under `Round` (twice the truncating remainder matches the divisor
/// in magnitude) is rounded away from zero, whatever the signs: the result
/// agrees with `AwayFromZero` and its magnitude exceeds the truncating
/// quotient's by one.
pub proof fn lemma_round_tie_away(a: int, b: int)
    requires
        b != 0,
        2 * abs_i(mod_trunc(a, b)) == abs_i(b),
    ensures
        rounded_div(a, b, Rounding::Round) == rounded_div(a, b, Rounding::AwayFromZero),
        abs_i(rounded_div(a, b, Rounding::Round)) == abs_i(div_trunc(a, b)) + 1,
{
    lemma_trunc_char(a, b);
}

/// The policy whose rounded quotient is the mirror image of the given one:
/// negating the dividend or the divisor swaps `Floor` with `Ceiling` and
/// leaves the three zero-symmetric policies in place.
pub open spec fn flipped(rounding: Rounding) -> Rounding {
    match rounding {
        Rounding::Floor => Rounding::Ceiling,
        Rounding::Ceiling => Rounding::Floor,
        Rounding::Round => Rounding::Round,
        Rounding::TowardsZero => Rounding::TowardsZero,
        Rounding::AwayFromZero => Rounding::AwayFromZero,
    }
}

/// How each policy transforms under negation of the dividend, the divisor,
/// or both: negating one operand negates the quotient of the mirrored
/// policy, and negating both leaves the quotient of the same policy.
pub proof fn lemma_sign_symmetry(a: int, b: int, rounding: Rounding)
    requires
        b != 0,
    ensures
        rounded_div(-a, b, rounding) == -rounded_div(a, b, flipped(rounding)),
        rounded_div(a, -b, rounding) == -rounded_div(a, b, flipped(rounding)),
        rounded_div(-a, -b, rounding) == rounded_div(a, b, rounding),
{
    let q1 = rounded_div(a, b, flipped(rounding));
    lemma_rounded_div_char(a, b, flipped(rounding));
    let rem = a - b * q1;
    assert((-a) - b * (-q1) == -rem) by (nonlinear_arith)
        requires
            rem == a - b * q1,
    ;
    assert(a - (-b) * (-q1) == rem) by (nonlinear_arith)
        requires
            rem == a - b * q1,
    ;
    lemma_rounded_div_unique(-a, b, -q1, rounding);
    lemma_rounded_div_unique(a, -b, -q1, rounding);
    let q2 = rounded_div(a, b, rounding);
    lemma_rounded_div_char(a, b, rounding);
    let rem2 = a - b * q2;
    assert((-a) - (-b) * q2 == -rem2) by (nonlinear_arith)
        requires
            rem2 == a - b * q2,
    ;
    lemma_rounded_div_unique(-a, -b, q2, rounding);
}

/// The truncating quotient and remainder written out by sign cases over the
/// Euclidean `/` and `%` of nonnegative operands: the form in which the
/// machine operations `checked_div` and `checked_rem` are specified.
pub proof fn lemma_div_trunc_is_machine_div(a: int, b: int)
    requires
        b != 0,
    ensures
        div_trunc(a, b) == (if a == 0 {
            0
        } else if a > 0 && b > 0 {
            a / b
        } else if a < 0 && b < 0 {
            (a * -1) / (b * -1)
        } else if a < 0 {
            ((a * -1) / b) * -1
        } else {
            (a / (b * -1)) * -1
        }),
        mod_trunc(a, b) == (if a == 0 {
            0
        } else if a > 0 && b > 0 {
            a % b
        } else if a < 0 && b < 0 {
            ((a * -1) % (b * -1)) * -1
        } else if a < 0 {
            ((a * -1) % b) * -1
        } else {
            a % (b * -1)
        }),
{
    let aa = abs_i(a);
    let bb = abs_i(b);
    lemma_fundamental_div_mod(aa, bb);
    lemma_mod_bound(aa, bb);
    let q0 = aa / bb;
    let r0 = aa % bb;
    if a >= 0 && b > 0 {
        assert(mod_trunc(a, b) == r0);
    } else if a >= 0 && b < 0 {
        assert(b * -q0 == bb * q0) by (nonlinear_arith)
            requires
                b == -bb,
        ;
        assert(mod_trunc(a, b) == r0);
    } else if a < 0 && b > 0 {
        assert(b * -q0 == -(bb * q0)) by (nonlinear_arith)
            requires
                b == bb,
        ;
        assert(mod_trunc(a, b) == -r0);
    } else {
        assert(b * q0 == -(bb * q0)) by (nonlinear_arith)
            requires
                b == -bb,
        ;
        assert(mod_trunc(a, b) == -r0);
    }
}

/// Shifting a quotient by one unit shifts the product with the divisor by
/// one divisor.
pub proof fn lemma_mul_unit_shift(b: int, q: int)
    ensures
        b * (q + 1) == b * q + b,
        b * (q - 1) == b * q - b,
{
    assert(b * (q + 1) == b * q + b) by (nonlinear_arith);
    assert(b * (q - 1) == b * q - b) by (nonlinear_arith);
}

/// Against a divisor of magnitude at least two, the truncating quotient has
/// at most half the magnitude of the dividend.
pub proof fn lemma_div_trunc_mag(a: int, b: int)
    requires
        b != 0,
        abs_i(b) >= 2,
    ensures
        2 * abs_i(div_trunc(a, b)) <= abs_i(a),
{
    let aa = abs_i(a);
    let bb = abs_i(b);
    lemma_trunc_char(a, b);
    vstd::arithmetic::div_mod::lemma_div_is_ordered_by_denominator(aa, 2, bb);
    lemma_fundamental_div_mod(aa, 2);
    lemma_mod_bound(aa, 2);
}

} // verus!
