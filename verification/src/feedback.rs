//! What one error-feedback division call does, as functions on unbounded
//! integers.
//!
//! The divider folds the fresh truncating remainder into the caller's
//! accumulator and then decides, from the fed accumulator's magnitude
//! against the divisor's, whether one divisor unit must be flushed out of
//! the accumulator into the quotient. [`flush_dir`], [`feedback_q`] and
//! [`feedback_acc`] state that decision exactly; the executable divider is
//! verified to return precisely these values, and the aggregate law about
//! whole sequences of calls is proved of them.

use vstd::prelude::*;

use crate::divmod::{abs_i, div_trunc, lemma_trunc_char, mod_trunc};
use crate::prim_int::{in_width, PrimSignedInt};
use crate::rounding::Rounding;

verus! {

/// Whether one divisor unit moves from the fed accumulator `c1` (the old
/// accumulator with the fresh remainder already added) into the quotient,
/// and in which direction: `1` raises the quotient and lowers the
/// accumulator by one divisor, `-1` the opposite, `0` leaves both. The
/// signs of the dividend `a` and the divisor `b` choose the direction; the
/// policy chooses the threshold.
pub open spec fn flush_dir(c1: int, a: int, b: int, rounding: Rounding) -> int
    recommends
        b != 0,
        a != 0,
{
    let same = (a > 0) == (b > 0);
    match rounding {
        Rounding::Floor => if same {
            if abs_i(c1) >= abs_i(b) {
                1
            } else {
                0
            }
        } else {
            if abs_i(c1 + b) < abs_i(b) {
                -1
            } else {
                0
            }
        },
        Rounding::Ceiling => if same {
            if abs_i(c1 - b) < abs_i(b) {
                1
            } else {
                0
            }
        } else {
            if abs_i(c1) >= abs_i(b) {
                -1
            } else {
                0
            }
        },
        Rounding::Round => if 2 * abs_i(c1) >= abs_i(b) {
            if same {
                1
            } else {
                -1
            }
        } else {
            0
        },
        Rounding::TowardsZero => if abs_i(c1) >= abs_i(b) {
            if same {
                1
            } else {
                -1
            }
        } else {
            0
        },
        Rounding::AwayFromZero => if same {
            if abs_i(c1 - b) < abs_i(b) {
                1
            } else {
                0
            }
        } else {
            if abs_i(c1 + b) < abs_i(b) {
                -1
            } else {
                0
            }
        },
    }
}

/// The quotient one error-feedback call returns on the ordinary path (the
/// remainder addition representable): the truncating quotient plus the
/// flushed unit. An exact division returns the exact quotient.
pub open spec fn feedback_q(c0: int, a: int, b: int, rounding: Rounding) -> int
    recommends
        b != 0,
{
    let r = mod_trunc(a, b);
    if r == 0 {
        div_trunc(a, b)
    } else {
        div_trunc(a, b) + flush_dir(c0 + r, a, b, rounding)
    }
}

/// The accumulator that same call leaves behind. An exact division leaves
/// it untouched.
pub open spec fn feedback_acc(c0: int, a: int, b: int, rounding: Rounding) -> int
    recommends
        b != 0,
{
    let r = mod_trunc(a, b);
    let d = flush_dir(c0 + r, a, b, rounding);
    if r == 0 {
        c0
    } else if d == 1 {
        c0 + r - b
    } else if d == -1 {
        c0 + r + b
    } else {
        c0 + r
    }
}

/// The accumulator invariant between calls: strictly smaller in magnitude
/// than the divisor, and for `Round` at most half of it.
pub open spec fn valid_acc(c: int, b: int, rounding: Rounding) -> bool {
    match rounding {
        Rounding::Round => 2 * abs_i(c) <= abs_i(b),
        _ => abs_i(c) < abs_i(b),
    }
}

/// Whether one error-feedback call on this state can be answered inside the
/// width `I` without overflow: either the remainder addition already leaves
/// the width (the fallback then corrects it, which is always
/// representable), or the flush the policy asks for stays representable.
pub open spec fn step_in_width<I: PrimSignedInt>(
    c0: int,
    a: int,
    b: int,
    rounding: Rounding,
) -> bool {
    let r = mod_trunc(a, b);
    let c1 = c0 + r;
    let d = flush_dir(c1, a, b, rounding);
    r != 0 && in_width::<I>(c1) ==> in_width::<I>(
        if d == 1 {
            c1 - b
        } else if d == -1 {
            c1 + b
        } else {
            c1
        },
    )
}

/// An exact division injects no error: whatever the policy and whatever
/// the accumulator holds, it returns the exact quotient and leaves the
/// accumulator untouched.
pub proof fn lemma_exact_division_feedback(c0: int, a: int, b: int, rounding: Rounding)
    requires
        b != 0,
        mod_trunc(a, b) == 0,
    ensures
        feedback_q(c0, a, b, rounding) == div_trunc(a, b),
        feedback_acc(c0, a, b, rounding) == c0,
{
}

/// One call keeps the accumulator invariant: feeding any dividend into a
/// valid accumulator leaves a valid accumulator.
pub proof fn lemma_feedback_valid_acc(c0: int, a: int, b: int, rounding: Rounding)
    requires
        b != 0,
        valid_acc(c0, b, rounding),
    ensures
        valid_acc(feedback_acc(c0, a, b, rounding), b, rounding),
{
    lemma_trunc_char(a, b);
}

/// An accumulator that satisfies its invariant never drives a call out of
/// the representable range: the documented way to meet [`step_in_width`].
pub proof fn lemma_valid_acc_step_in_width<I: PrimSignedInt>(
    c0: int,
    a: int,
    b: int,
    rounding: Rounding,
)
    requires
        b != 0,
        in_width::<I>(b),
        valid_acc(c0, b, rounding),
    ensures
        step_in_width::<I>(c0, a, b, rounding),
{
    I::lemma_width();
    lemma_trunc_char(a, b);
}

} // verus!
