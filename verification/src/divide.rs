//! The dividers: stateless rounded division, and division that feeds each
//! call's rounding error into the next through a caller-owned accumulator.

use vstd::arithmetic::div_mod::lemma_div_basics;
use vstd::prelude::*;

use crate::divmod::{
    abs_i, div_trunc, lemma_div_trunc_mag, lemma_exact_division, lemma_mul_unit_shift,
    lemma_trunc_char, mod_trunc, rounded_div,
};
use crate::feedback::{
    feedback_acc, feedback_q, lemma_feedback_valid_acc, step_in_width, valid_acc,
};
use crate::magnitude::{add_cmp_abs_lt, cmp_abs_ge, cmp_abs_half_ge, same_sign, sub_cmp_abs_lt};
use crate::prim_int::{in_width, PrimSignedInt};
use crate::rounding::Rounding;

verus! {

/// Checked division with a rounding policy.
///
/// Returns `None` exactly when the divisor is zero or the quotient is not
/// representable (the most negative value divided by minus one); otherwise
/// the result is the quotient of [`rounded_div`].
///
/// `I` is a primitive signed integer type: `i8`, `i16`, `i32`, `i64` or
/// `i128`.
///
/// This is plain stateless rounding; it never involves an accumulator.
pub fn checked_divide_with_rounding<I: PrimSignedInt>(
    left: I,
    right: I,
    rounding: Rounding,
) -> (result: Option<I>)
    ensures
        result is Some <==> (right.v() != 0 && !(left.v() == I::min_v() && right.v() == -1)),
        result matches Some(q) ==> q.v() == rounded_div(left.v(), right.v(), rounding),
{
    proof {
        I::lemma_width();
        left.lemma_range();
        right.lemma_range();
        if right.v() != 0 {
            lemma_trunc_char(left.v(), right.v());
            lemma_div_basics(abs_i(left.v()));
            lemma_div_basics(abs_i(right.v()));
            if abs_i(right.v()) >= 2 {
                lemma_div_trunc_mag(left.v(), right.v());
            }
        }
    }
    let q = match left.checked_div_trunc(right) {
        Some(q) => q,
        None => {
            return None;
        },
    };
    let remain = left.rem_trunc(right);
    if remain.is_zero() {
        proof {
            lemma_exact_division(left.v(), right.v(), rounding);
        }
        return Some(q);
    }
    let one = I::one();
    match rounding {
        Rounding::Floor => {
            if same_sign(left, right) {
                Some(q)
            } else {
                Some(q.minus(one))
            }
        },
        Rounding::Ceiling => {
            if same_sign(left, right) {
                Some(q.plus(one))
            } else {
                Some(q)
            }
        },
        Rounding::Round => {
            if cmp_abs_half_ge(remain, right) {
                if same_sign(left, right) {
                    Some(q.plus(one))
                } else {
                    Some(q.minus(one))
                }
            } else {
                Some(q)
            }
        },
        Rounding::TowardsZero => Some(q),
        Rounding::AwayFromZero => {
            if same_sign(left, right) {
                Some(q.plus(one))
            } else {
                Some(q.minus(one))
            }
        },
    }
}

/// Everything one error-feedback call promises about its result and the
/// accumulator it leaves, relating dividend `a`, divisor `b`, the
/// accumulator `c0` before and `c_new` after the call:
///
/// - the call succeeds exactly when the plain checked division would;
/// - a failed call leaves the accumulator untouched;
/// - nothing is ever lost: `c_new + b * q == c0 + a`;
/// - on the ordinary path the call returns [`feedback_q`] and leaves
///   [`feedback_acc`], and keeps [`valid_acc`] once it holds;
/// - when folding the remainder into the accumulator would leave the width,
///   the call corrects by exactly one divisor unit in the direction of the
///   dividend's sign, without consulting the policy.
pub open spec fn cum_error_call_post<I: PrimSignedInt>(
    a: int,
    b: int,
    c0: int,
    c_new: int,
    result: Option<I>,
    rounding: Rounding,
) -> bool {
    &&& (result is Some <==> (b != 0 && !(a == I::min_v() && b == -1)))
    &&& (result is None ==> c_new == c0)
    &&& (result matches Some(q) ==> {
        let c1 = c0 + mod_trunc(a, b);
        &&& c_new + b * q.v() == c0 + a
        &&& (in_width::<I>(c1) ==> q.v() == feedback_q(c0, a, b, rounding) && c_new
            == feedback_acc(c0, a, b, rounding))
        &&& (!in_width::<I>(c1) ==> q.v() == div_trunc(a, b) + (if (a > 0) == (b > 0) {
            1int
        } else {
            -1int
        }) && c_new == c1 + (if (a > 0) == (b > 0) {
            -b
        } else {
            b
        }))
        &&& (valid_acc(c0, b, rounding) && in_width::<I>(c1) ==> valid_acc(c_new, b, rounding))
    })
}

/// Checked division with a rounding policy and a cumulative error.
///
/// The caller owns the accumulator, initially zero, and threads it through
/// successive divisions by the same divisor: each call folds its rounding
/// error into the accumulator and each accumulated divisor unit flows back
/// into a later quotient, so the quotients of a split dividend sum to the
/// quotient of the whole (see [`crate::aggregate`]).
///
/// Returns `None` exactly when the divisor is zero or the quotient is not
/// representable, leaving the accumulator untouched. The accumulator's
/// invariant [`valid_acc`] — smaller in magnitude than the divisor, at most
/// half of it for [`Rounding::Round`] — is kept by every call; an
/// accumulator satisfying it always meets this function's precondition
/// ([`crate::feedback::lemma_valid_acc_step_in_width`]).
pub fn checked_divide_with_cum_error<I: PrimSignedInt>(
    left: I,
    right: I,
    rounding: Rounding,
    cum_error: &mut I,
) -> (result: Option<I>)
    requires
        right.v() != 0 ==> step_in_width::<I>(old(cum_error).v(), left.v(), right.v(), rounding),
    ensures
        cum_error_call_post::<I>(
            left.v(),
            right.v(),
            old(cum_error).v(),
            final(cum_error).v(),
            result,
            rounding,
        ),
{
    proof {
        I::lemma_width();
        left.lemma_range();
        right.lemma_range();
        old(cum_error).lemma_range();
        if right.v() != 0 {
            lemma_trunc_char(left.v(), right.v());
            lemma_div_basics(abs_i(left.v()));
            lemma_div_basics(abs_i(right.v()));
            if abs_i(right.v()) >= 2 {
                lemma_div_trunc_mag(left.v(), right.v());
            }
        }
    }
    let q0 = match left.checked_div_trunc(right) {
        Some(q) => q,
        None => {
            return None;
        },
    };
    let remain = left.rem_trunc(right);
    if remain.is_zero() {
        return Some(q0);
    }
    let one = I::one();
    let tmpsum = match (*cum_error).checked_plus(remain) {
        Some(t) => t,
        None => {
            // the fed accumulator would leave the width: correct by one
            // divisor unit directly, which is always representable again
            proof {
                lemma_mul_unit_shift(right.v(), q0.v());
            }
            if same_sign(left, right) {
                *cum_error = (*cum_error).plus(remain.minus(right));
                return Some(q0.plus(one));
            } else {
                *cum_error = (*cum_error).plus(remain.plus(right));
                return Some(q0.minus(one));
            }
        },
    };
    *cum_error = tmpsum;
    let mut q = q0;
    match rounding {
        Rounding::Floor => {
            if same_sign(left, right) {
                if cmp_abs_ge(*cum_error, right) {
                    *cum_error = (*cum_error).minus(right);
                    q = q.plus(one);
                }
            } else {
                if add_cmp_abs_lt(*cum_error, right) {
                    *cum_error = (*cum_error).plus(right);
                    q = q.minus(one);
                }
            }
        },
        Rounding::Ceiling => {
            if same_sign(left, right) {
                if sub_cmp_abs_lt(*cum_error, right) {
                    *cum_error = (*cum_error).minus(right);
                    q = q.plus(one);
                }
            } else {
                if cmp_abs_ge(*cum_error, right) {
                    *cum_error = (*cum_error).plus(right);
                    q = q.minus(one);
                }
            }
        },
        Rounding::Round => {
            if cmp_abs_half_ge(*cum_error, right) {
                if same_sign(left, right) {
                    *cum_error = (*cum_error).minus(right);
                    q = q.plus(one);
                } else {
                    *cum_error = (*cum_error).plus(right);
                    q = q.minus(one);
                }
            }
        },
        Rounding::TowardsZero => {
            if cmp_abs_ge(*cum_error, right) {
                if same_sign(left, right) {
                    *cum_error = (*cum_error).minus(right);
                    q = q.plus(one);
                } else {
                    *cum_error = (*cum_error).plus(right);
                    q = q.minus(one);
                }
            }
        },
        Rounding::AwayFromZero => {
            if same_sign(left, right) {
                if sub_cmp_abs_lt(*cum_error, right) {
                    *cum_error = (*cum_error).minus(right);
                    q = q.plus(one);
                }
            } else {
                if add_cmp_abs_lt(*cum_error, right) {
                    *cum_error = (*cum_error).plus(right);
                    q = q.minus(one);
                }
            }
        },
    }
    proof {
        lemma_mul_unit_shift(right.v(), q0.v());
        if valid_acc(old(cum_error).v(), right.v(), rounding) {
            lemma_feedback_valid_acc(old(cum_error).v(), left.v(), right.v(), rounding);
        }
    }
    Some(q)
}

/// Wrapper over the two dividers: divides with the cumulative error when
/// one is supplied, and statelessly when none is.
pub fn checked_divide<I: PrimSignedInt>(
    left: I,
    right: I,
    rounding: Rounding,
    cum_error: &mut Option<I>,
) -> (result: Option<I>)
    requires
        (*old(cum_error)) matches Some(c) ==> (right.v() != 0 ==> step_in_width::<I>(
            c.v(),
            left.v(),
            right.v(),
            rounding,
        )),
    ensures
        (*old(cum_error)) is None ==> (*final(cum_error)) is None && (result is Some <==> (right.v()
            != 0 && !(left.v() == I::min_v() && right.v() == -1))) && (result matches Some(q)
            ==> q.v() == rounded_div(left.v(), right.v(), rounding)),
        (*old(cum_error)) matches Some(c) ==> (*final(cum_error)) matches Some(c_new)
            && cum_error_call_post::<I>(left.v(), right.v(), c.v(), c_new.v(), result, rounding),
{
    match *cum_error {
        Some(c) => {
            let mut fed = c;
            let result = checked_divide_with_cum_error(left, right, rounding, &mut fed);
            *cum_error = Some(fed);
            result
        },
        None => checked_divide_with_rounding(left, right, rounding),
    }
}

} // verus!
