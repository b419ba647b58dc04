//! Overflow-safe magnitude comparisons.
//!
//! Computing `|x|` directly fails for the most negative value of a width,
//! and `a + b` or `a - b` can leave the representable range outright. Each
//! predicate here answers its comparison exactly while staying inside the
//! range, so the dividers can decide before they adjust anything.

use vstd::prelude::*;

use crate::divmod::abs_i;
use crate::prim_int::{in_width, PrimSignedInt};

verus! {

/// Whether `|a| >= |b|`, without computing either magnitude.
pub fn cmp_abs_ge<I: PrimSignedInt>(a: I, b: I) -> (r: bool)
    ensures
        r == (abs_i(a.v()) >= abs_i(b.v())),
{
    proof {
        a.lemma_range();
        b.lemma_range();
    }
    if a.is_neg() {
        if b.is_neg() {
            a.le(b)
        } else {
            // opposite signs: |a| >= |b| exactly when a + b <= 0, and the
            // sum of values of opposite signs is always representable
            let s = a.plus(b);
            s.is_neg() || s.is_zero()
        }
    } else {
        if b.is_neg() {
            let s = a.plus(b);
            !s.is_neg()
        } else {
            b.le(a)
        }
    }
}

/// Whether `2 * |a| >= |b|`, although the doubled magnitude itself may not
/// be representable.
pub fn cmp_abs_half_ge<I: PrimSignedInt>(a: I, b: I) -> (r: bool)
    ensures
        r == (2 * abs_i(a.v()) >= abs_i(b.v())),
{
    proof {
        a.lemma_range();
        b.lemma_range();
    }
    if cmp_abs_ge(a, b) {
        true
    } else {
        // here |a| < |b|, so a is not the most negative value and |a| is
        // representable; fold b into the comparison one summand at a time
        // so every intermediate stays between a and b in magnitude
        let aa = if a.is_neg() {
            I::zero().minus(a)
        } else {
            a
        };
        let t = if b.is_neg() {
            b.plus(aa).plus(aa)
        } else {
            aa.minus(b).plus(aa)
        };
        !t.is_neg()
    }
}

/// Whether `a + b` is representable with `|a + b| < |b|`; a sum outside the
/// representable range reports false.
pub fn add_cmp_abs_lt<I: PrimSignedInt>(a: I, b: I) -> (r: bool)
    ensures
        r == (in_width::<I>(a.v() + b.v()) && abs_i(a.v() + b.v()) < abs_i(b.v())),
{
    match a.checked_plus(b) {
        Some(n) => !cmp_abs_ge(n, b),
        None => false,
    }
}

/// Whether `a - b` is representable with `|a - b| < |b|`; a difference
/// outside the representable range reports false.
pub fn sub_cmp_abs_lt<I: PrimSignedInt>(a: I, b: I) -> (r: bool)
    ensures
        r == (in_width::<I>(a.v() - b.v()) && abs_i(a.v() - b.v()) < abs_i(b.v())),
{
    match a.checked_minus(b) {
        Some(n) => !cmp_abs_ge(n, b),
        None => false,
    }
}

/// Whether two nonzero values have the same sign.
pub fn same_sign<I: PrimSignedInt>(a: I, b: I) -> (r: bool)
    requires
        a.v() != 0,
        b.v() != 0,
    ensures
        r == ((a.v() > 0) == (b.v() > 0)),
{
    a.is_neg() == b.is_neg()
}

} // verus!
