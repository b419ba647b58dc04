//! The aggregate law: error-feedback divisions of the parts sum to one
//! division of the whole.
//!
//! Feeding a sequence of dividends one call at a time through
//! [`crate::divide::checked_divide_with_cum_error`] with a shared
//! accumulator starting at zero returns, in total, exactly the rounded
//! quotient of the summed dividends, and leaves exactly its remainder in
//! the accumulator. The run is modelled here by folding [`feedback_q`] and
//! [`feedback_acc`] — the very functions the executable divider is proved
//! to compute — over the sequence.

use vstd::prelude::*;

use crate::divmod::{
    div_trunc, lemma_mul_unit_shift, lemma_rounded_div_char, lemma_rounded_div_unique,
    lemma_trunc_char, mod_trunc, rounded_div,
};
use crate::feedback::{feedback_acc, feedback_q, flush_dir};
use crate::rounding::Rounding;

verus! {

/// The sum of a sequence of dividends.
pub open spec fn seq_sum(xs: Seq<int>) -> int
    decreases xs.len(),
{
    if xs.len() == 0 {
        0
    } else {
        seq_sum(xs.drop_last()) + xs.last()
    }
}

/// The accumulator left by feeding `xs`, one dividend at a time, into the
/// error-feedback divider with a shared accumulator starting at zero.
pub open spec fn run_acc(xs: Seq<int>, b: int, rounding: Rounding) -> int
    decreases xs.len(),
{
    if xs.len() == 0 {
        0
    } else {
        feedback_acc(run_acc(xs.drop_last(), b, rounding), xs.last(), b, rounding)
    }
}

/// The sum of the quotients returned by that same run.
pub open spec fn run_q_sum(xs: Seq<int>, b: int, rounding: Rounding) -> int
    decreases xs.len(),
{
    if xs.len() == 0 {
        0
    } else {
        run_q_sum(xs.drop_last(), b, rounding) + feedback_q(
            run_acc(xs.drop_last(), b, rounding),
            xs.last(),
            b,
            rounding,
        )
    }
}

/// A sequence of one sign sums to that sign.
proof fn lemma_seq_sum_sign(xs: Seq<int>)
    ensures
        (forall|i: int| 0 <= i < xs.len() ==> xs[i] >= 0) ==> seq_sum(xs) >= 0,
        (forall|i: int| 0 <= i < xs.len() ==> xs[i] <= 0) ==> seq_sum(xs) <= 0,
    decreases xs.len(),
{
    if xs.len() > 0 {
        lemma_seq_sum_sign(xs.drop_last());
    }
}

/// One feedback step advances the aggregate division by exactly the fresh
/// dividend: fed the remainder state of an aggregate dividend `s`, it
/// returns the difference between the rounded quotients of `s + a` and of
/// `s`, and leaves the remainder state of `s + a`. `Floor` and `Ceiling`
/// advance this way from any state; the three zero-symmetric policies need
/// `a` to pull in the direction `s` already has, since their remainder's
/// sign follows their dividend's.
proof fn lemma_feedback_step(s: int, a: int, b: int, rounding: Rounding)
    requires
        b != 0,
        rounding is Floor || rounding is Ceiling || (s >= 0 && a >= 0) || (s <= 0 && a <= 0),
    ensures
        ({
            let c = s - b * rounded_div(s, b, rounding);
            feedback_q(c, a, b, rounding) == rounded_div(s + a, b, rounding) - rounded_div(
                s,
                b,
                rounding,
            ) && feedback_acc(c, a, b, rounding) == (s + a) - b * rounded_div(s + a, b, rounding)
        }),
{
    let qs = rounded_div(s, b, rounding);
    let c = s - b * qs;
    lemma_rounded_div_char(s, b, rounding);
    lemma_trunc_char(a, b);
    let qt = div_trunc(a, b);
    let r = mod_trunc(a, b);
    assert(b * (qs + qt) == b * qs + b * qt) by (nonlinear_arith);
    if r == 0 {
        lemma_rounded_div_unique(s + a, b, qs + qt, rounding);
    } else {
        let c1 = c + r;
        let d = flush_dir(c1, a, b, rounding);
        lemma_mul_unit_shift(b, qs + qt);
        if d == 1 {
            lemma_rounded_div_unique(s + a, b, qs + qt + 1, rounding);
        } else if d == -1 {
            lemma_rounded_div_unique(s + a, b, qs + qt - 1, rounding);
        } else {
            lemma_rounded_div_unique(s + a, b, qs + qt, rounding);
        }
    }
}

/// Aggregate consistency: running the error-feedback divider over a whole
/// sequence of dividends with a shared accumulator starting at zero yields
/// quotients that sum to the one rounded quotient of the summed dividends,
/// and an accumulator holding exactly its remainder.
///
/// `Floor` and `Ceiling` keep this for every sequence. `Round`,
/// `TowardsZero` and `AwayFromZero` keep it for dividends that all share
/// one sign: their remainder state carries the dividend's sign, which a
/// sequence straddling zero can contradict.
pub proof fn lemma_aggregate_consistency(xs: Seq<int>, b: int, rounding: Rounding)
    requires
        b != 0,
        rounding is Floor || rounding is Ceiling || (forall|i: int|
            0 <= i < xs.len() ==> xs[i] >= 0) || (forall|i: int|
            0 <= i < xs.len() ==> xs[i] <= 0),
    ensures
        run_q_sum(xs, b, rounding) == rounded_div(seq_sum(xs), b, rounding),
        run_acc(xs, b, rounding) == seq_sum(xs) - b * rounded_div(seq_sum(xs), b, rounding),
    decreases xs.len(),
{
    if xs.len() == 0 {
        lemma_rounded_div_unique(0, b, 0, rounding);
    } else {
        let ys = xs.drop_last();
        let a = xs.last();
        lemma_aggregate_consistency(ys, b, rounding);
        lemma_seq_sum_sign(ys);
        lemma_feedback_step(seq_sum(ys), a, b, rounding);
    }
}

} // verus!
