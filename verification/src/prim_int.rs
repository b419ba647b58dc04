//! The capability set a primitive signed integer offers the dividers.
//!
//! The division algorithms are written once, generically, against this
//! trait; each fixed width implements it by the corresponding machine
//! operation. Every operation carries its exact contract over the
//! mathematical value [`PrimSignedInt::v`], so the generic code is verified
//! for all widths at once.

use vstd::prelude::*;

use crate::divmod::{div_trunc, lemma_div_trunc_is_machine_div, mod_trunc};

verus! {

/// A primitive signed integer of some fixed width: `i8` through `i128`.
///
/// The partial operations (`plus`, `minus`, `rem_trunc`) demand that their
/// result is representable; the checked ones report representability in
/// their result. None of them can overflow, wrap or panic.
pub trait PrimSignedInt: Sized + Copy {
    /// The mathematical value of this machine integer.
    spec fn v(self) -> int;

    /// The smallest representable value.
    spec fn min_v() -> int;

    /// The largest representable value.
    spec fn max_v() -> int;

    /// The range is a two's-complement one of at least eight bits: the most
    /// negative value has no positive counterpart.
    proof fn lemma_width()
        ensures
            Self::min_v() == -Self::max_v() - 1,
            Self::max_v() >= 127,
    ;

    /// Every value lies in that range.
    proof fn lemma_range(self)
        ensures
            Self::min_v() <= self.v() <= Self::max_v(),
            Self::min_v() == -Self::max_v() - 1,
            Self::max_v() >= 127,
    ;

    /// The value zero.
    fn zero() -> (r: Self)
        ensures
            r.v() == 0,
    ;

    /// The value one.
    fn one() -> (r: Self)
        ensures
            r.v() == 1,
    ;

    /// Whether this value is negative.
    fn is_neg(self) -> (r: bool)
        ensures
            r == (self.v() < 0),
    ;

    /// Whether this value is zero.
    fn is_zero(self) -> (r: bool)
        ensures
            r == (self.v() == 0),
    ;

    /// Whether this value is at most `other`.
    fn le(self, other: Self) -> (r: bool)
        ensures
            r == (self.v() <= other.v()),
    ;

    /// The sum, which the caller must know to be representable.
    fn plus(self, other: Self) -> (r: Self)
        requires
            Self::min_v() <= self.v() + other.v() <= Self::max_v(),
        ensures
            r.v() == self.v() + other.v(),
    ;

    /// The difference, which the caller must know to be representable.
    fn minus(self, other: Self) -> (r: Self)
        requires
            Self::min_v() <= self.v() - other.v() <= Self::max_v(),
        ensures
            r.v() == self.v() - other.v(),
    ;

    /// The sum, or `None` when it is not representable.
    fn checked_plus(self, other: Self) -> (r: Option<Self>)
        ensures
            r is Some <==> Self::min_v() <= self.v() + other.v() <= Self::max_v(),
            r matches Some(s) ==> s.v() == self.v() + other.v(),
    ;

    /// The difference, or `None` when it is not representable.
    fn checked_minus(self, other: Self) -> (r: Option<Self>)
        ensures
            r is Some <==> Self::min_v() <= self.v() - other.v() <= Self::max_v(),
            r matches Some(s) ==> s.v() == self.v() - other.v(),
    ;

    /// The quotient truncated towards zero, or `None` when the divisor is
    /// zero or the quotient is not representable (the most negative value
    /// divided by minus one).
    fn checked_div_trunc(self, other: Self) -> (r: Option<Self>)
        ensures
            r is Some <==> (other.v() != 0 && Self::min_v() <= div_trunc(self.v(), other.v())
                <= Self::max_v()),
            r matches Some(q) ==> q.v() == div_trunc(self.v(), other.v()),
    ;

    /// The remainder of the truncating division, defined whenever the
    /// truncating quotient is: it is then representable itself.
    fn rem_trunc(self, other: Self) -> (r: Self)
        requires
            other.v() != 0,
            Self::min_v() <= div_trunc(self.v(), other.v()) <= Self::max_v(),
        ensures
            r.v() == mod_trunc(self.v(), other.v()),
    ;
}

/// Whether the mathematical integer `x` is representable in the width `I`.
pub open spec fn in_width<I: PrimSignedInt>(x: int) -> bool {
    I::min_v() <= x <= I::max_v()
}

impl PrimSignedInt for i32 {
    open spec fn v(self) -> int {
        self as int
    }

    open spec fn min_v() -> int {
        i32::MIN as int
    }

    open spec fn max_v() -> int {
        i32::MAX as int
    }

    proof fn lemma_width() {
    }

    proof fn lemma_range(self) {
    }

    fn zero() -> (r: Self) {
        0
    }

    fn one() -> (r: Self) {
        1
    }

    fn is_neg(self) -> (r: bool) {
        self < 0
    }

    fn is_zero(self) -> (r: bool) {
        self == 0
    }

    fn le(self, other: Self) -> (r: bool) {
        self <= other
    }

    fn plus(self, other: Self) -> (r: Self) {
        self + other
    }

    fn minus(self, other: Self) -> (r: Self) {
        self - other
    }

    fn checked_plus(self, other: Self) -> (r: Option<Self>) {
        self.checked_add(other)
    }

    fn checked_minus(self, other: Self) -> (r: Option<Self>) {
        self.checked_sub(other)
    }

    fn checked_div_trunc(self, other: Self) -> (r: Option<Self>) {
        proof {
            if other != 0 {
                lemma_div_trunc_is_machine_div(self as int, other as int);
            }
        }
        self.checked_div(other)
    }

    fn rem_trunc(self, other: Self) -> (r: Self) {
        proof {
            lemma_div_trunc_is_machine_div(self as int, other as int);
            vstd::arithmetic::div_mod::lemma_div_basics(-(i32::MIN as int));
        }
        match self.checked_rem(other) {
            Some(rem) => rem,
            None => vstd::pervasive::unreached(),
        }
    }
}

impl PrimSignedInt for i8 {
    open spec fn v(self) -> int {
        self as int
    }

    open spec fn min_v() -> int {
        i8::MIN as int
    }

    open spec fn max_v() -> int {
        i8::MAX as int
    }

    proof fn lemma_width() {
    }

    proof fn lemma_range(self) {
    }

    fn zero() -> (r: Self) {
        0
    }

    fn one() -> (r: Self) {
        1
    }

    fn is_neg(self) -> (r: bool) {
        self < 0
    }

    fn is_zero(self) -> (r: bool) {
        self == 0
    }

    fn le(self, other: Self) -> (r: bool) {
        self <= other
    }

    fn plus(self, other: Self) -> (r: Self) {
        self + other
    }

    fn minus(self, other: Self) -> (r: Self) {
        self - other
    }

    fn checked_plus(self, other: Self) -> (r: Option<Self>) {
        self.checked_add(other)
    }

    fn checked_minus(self, other: Self) -> (r: Option<Self>) {
        self.checked_sub(other)
    }

    fn checked_div_trunc(self, other: Self) -> (r: Option<Self>) {
        proof {
            if other != 0 {
                lemma_div_trunc_is_machine_div(self as int, other as int);
            }
        }
        self.checked_div(other)
    }

    fn rem_trunc(self, other: Self) -> (r: Self) {
        proof {
            lemma_div_trunc_is_machine_div(self as int, other as int);
            vstd::arithmetic::div_mod::lemma_div_basics(-(i8::MIN as int));
        }
        match self.checked_rem(other) {
            Some(rem) => rem,
            None => vstd::pervasive::unreached(),
        }
    }
}

impl PrimSignedInt for i16 {
    open spec fn v(self) -> int {
        self as int
    }

    open spec fn min_v() -> int {
        i16::MIN as int
    }

    open spec fn max_v() -> int {
        i16::MAX as int
    }

    proof fn lemma_width() {
    }

    proof fn lemma_range(self) {
    }

    fn zero() -> (r: Self) {
        0
    }

    fn one() -> (r: Self) {
        1
    }

    fn is_neg(self) -> (r: bool) {
        self < 0
    }

    fn is_zero(self) -> (r: bool) {
        self == 0
    }

    fn le(self, other: Self) -> (r: bool) {
        self <= other
    }

    fn plus(self, other: Self) -> (r: Self) {
        self + other
    }

    fn minus(self, other: Self) -> (r: Self) {
        self - other
    }

    fn checked_plus(self, other: Self) -> (r: Option<Self>) {
        self.checked_add(other)
    }

    fn checked_minus(self, other: Self) -> (r: Option<Self>) {
        self.checked_sub(other)
    }

    fn checked_div_trunc(self, other: Self) -> (r: Option<Self>) {
        proof {
            if other != 0 {
                lemma_div_trunc_is_machine_div(self as int, other as int);
            }
        }
        self.checked_div(other)
    }

    fn rem_trunc(self, other: Self) -> (r: Self) {
        proof {
            lemma_div_trunc_is_machine_div(self as int, other as int);
            vstd::arithmetic::div_mod::lemma_div_basics(-(i16::MIN as int));
        }
        match self.checked_rem(other) {
            Some(rem) => rem,
            None => vstd::pervasive::unreached(),
        }
    }
}

impl PrimSignedInt for i64 {
    open spec fn v(self) -> int {
        self as int
    }

    open spec fn min_v() -> int {
        i64::MIN as int
    }

    open spec fn max_v() -> int {
        i64::MAX as int
    }

    proof fn lemma_width() {
    }

    proof fn lemma_range(self) {
    }

    fn zero() -> (r: Self) {
        0
    }

    fn one() -> (r: Self) {
        1
    }

    fn is_neg(self) -> (r: bool) {
        self < 0
    }

    fn is_zero(self) -> (r: bool) {
        self == 0
    }

    fn le(self, other: Self) -> (r: bool) {
        self <= other
    }

    fn plus(self, other: Self) -> (r: Self) {
        self + other
    }

    fn minus(self, other: Self) -> (r: Self) {
        self - other
    }

    fn checked_plus(self, other: Self) -> (r: Option<Self>) {
        self.checked_add(other)
    }

    fn checked_minus(self, other: Self) -> (r: Option<Self>) {
        self.checked_sub(other)
    }

    fn checked_div_trunc(self, other: Self) -> (r: Option<Self>) {
        proof {
            if other != 0 {
                lemma_div_trunc_is_machine_div(self as int, other as int);
            }
        }
        self.checked_div(other)
    }

    fn rem_trunc(self, other: Self) -> (r: Self) {
        proof {
            lemma_div_trunc_is_machine_div(self as int, other as int);
            vstd::arithmetic::div_mod::lemma_div_basics(-(i64::MIN as int));
        }
        match self.checked_rem(other) {
            Some(rem) => rem,
            None => vstd::pervasive::unreached(),
        }
    }
}

impl PrimSignedInt for i128 {
    open spec fn v(self) -> int {
        self as int
    }

    open spec fn min_v() -> int {
        i128::MIN as int
    }

    open spec fn max_v() -> int {
        i128::MAX as int
    }

    proof fn lemma_width() {
    }

    proof fn lemma_range(self) {
    }

    fn zero() -> (r: Self) {
        0
    }

    fn one() -> (r: Self) {
        1
    }

    fn is_neg(self) -> (r: bool) {
        self < 0
    }

    fn is_zero(self) -> (r: bool) {
        self == 0
    }

    fn le(self, other: Self) -> (r: bool) {
        self <= other
    }

    fn plus(self, other: Self) -> (r: Self) {
        self + other
    }

    fn minus(self, other: Self) -> (r: Self) {
        self - other
    }

    fn checked_plus(self, other: Self) -> (r: Option<Self>) {
        self.checked_add(other)
    }

    fn checked_minus(self, other: Self) -> (r: Option<Self>) {
        self.checked_sub(other)
    }

    fn checked_div_trunc(self, other: Self) -> (r: Option<Self>) {
        proof {
            if other != 0 {
                lemma_div_trunc_is_machine_div(self as int, other as int);
            }
        }
        self.checked_div(other)
    }

    fn rem_trunc(self, other: Self) -> (r: Self) {
        proof {
            lemma_div_trunc_is_machine_div(self as int, other as int);
            vstd::arithmetic::div_mod::lemma_div_basics(-(i128::MIN as int));
        }
        match self.checked_rem(other) {
            Some(rem) => rem,
            None => vstd::pervasive::unreached(),
        }
    }
}

} // verus!
