use int_div_cum_error::magnitude::{
    add_cmp_abs_lt, cmp_abs_ge, cmp_abs_half_ge, same_sign, sub_cmp_abs_lt,
};
use int_div_cum_error::{checked_divide_with_rounding, Rounding};

#[test]
fn negative_seven_halves_under_each_policy() {
    assert_eq!(checked_divide_with_rounding(-7, 2, Rounding::Floor), Some(-4));
    assert_eq!(checked_divide_with_rounding(-7, 2, Rounding::Ceiling), Some(-3));
    assert_eq!(
        checked_divide_with_rounding(-7, 2, Rounding::TowardsZero),
        Some(-3)
    );
    assert_eq!(
        checked_divide_with_rounding(-7, 2, Rounding::AwayFromZero),
        Some(-4)
    );
    assert_eq!(checked_divide_with_rounding(-7, 2, Rounding::Round), Some(-4));
}

#[test]
fn division_by_zero_fails_under_each_policy() {
    for rounding in [
        Rounding::Round,
        Rounding::Floor,
        Rounding::Ceiling,
        Rounding::TowardsZero,
        Rounding::AwayFromZero,
    ] {
        assert_eq!(checked_divide_with_rounding(5, 0, rounding), None);
    }
}

#[test]
fn most_negative_by_minus_one_fails() {
    for rounding in [
        Rounding::Round,
        Rounding::Floor,
        Rounding::Ceiling,
        Rounding::TowardsZero,
        Rounding::AwayFromZero,
    ] {
        assert_eq!(checked_divide_with_rounding(i32::MIN, -1, rounding), None);
        assert_eq!(checked_divide_with_rounding(i32::MIN, 1, rounding), Some(i32::MIN));
    }
}

#[test]
fn round_ties_go_away_from_zero() {
    assert_eq!(checked_divide_with_rounding(7, 2, Rounding::Round), Some(4));
    assert_eq!(checked_divide_with_rounding(-7, 2, Rounding::Round), Some(-4));
    assert_eq!(checked_divide_with_rounding(7, -2, Rounding::Round), Some(-4));
    assert_eq!(checked_divide_with_rounding(-7, -2, Rounding::Round), Some(4));
    assert_eq!(checked_divide_with_rounding(1, 2, Rounding::Round), Some(1));
    assert_eq!(checked_divide_with_rounding(-1, 2, Rounding::Round), Some(-1));
}

#[test]
fn sign_symmetry_samples() {
    // negating one operand mirrors Floor and Ceiling into each other and
    // negates the quotient; negating both restores it
    assert_eq!(checked_divide_with_rounding(7, 3, Rounding::Floor), Some(2));
    assert_eq!(checked_divide_with_rounding(-7, 3, Rounding::Ceiling), Some(-2));
    assert_eq!(checked_divide_with_rounding(7, -3, Rounding::Ceiling), Some(-2));
    assert_eq!(checked_divide_with_rounding(-7, -3, Rounding::Floor), Some(2));

    // the three zero-symmetric policies mirror into themselves
    for rounding in [
        Rounding::Round,
        Rounding::TowardsZero,
        Rounding::AwayFromZero,
    ] {
        let q = checked_divide_with_rounding(11, 4, rounding).unwrap();
        assert_eq!(checked_divide_with_rounding(-11, 4, rounding), Some(-q));
        assert_eq!(checked_divide_with_rounding(11, -4, rounding), Some(-q));
        assert_eq!(checked_divide_with_rounding(-11, -4, rounding), Some(q));
    }
}

#[test]
fn exact_division_is_exact_under_each_policy() {
    for rounding in [
        Rounding::Round,
        Rounding::Floor,
        Rounding::Ceiling,
        Rounding::TowardsZero,
        Rounding::AwayFromZero,
    ] {
        assert_eq!(checked_divide_with_rounding(60, 3, rounding), Some(20));
        assert_eq!(checked_divide_with_rounding(-60, 3, rounding), Some(-20));
    }
}

#[test]
fn every_width_divides() {
    assert_eq!(checked_divide_with_rounding(127i8, 2, Rounding::Round), Some(64));
    assert_eq!(checked_divide_with_rounding(i8::MIN, -1, Rounding::Round), None);
    assert_eq!(
        checked_divide_with_rounding(-32767i16, 4, Rounding::Floor),
        Some(-8192)
    );
    assert_eq!(
        checked_divide_with_rounding(1_000_000_007i32, 10, Rounding::TowardsZero),
        Some(100_000_000)
    );
    assert_eq!(
        checked_divide_with_rounding(-5_000_000_000_000i64, 7, Rounding::Ceiling),
        Some(-714_285_714_285)
    );
    assert_eq!(
        checked_divide_with_rounding(i128::MIN, 2, Rounding::AwayFromZero),
        Some(i128::MIN / 2)
    );
    let mut cum_error = 0i8;
    let q = int_div_cum_error::checked_divide_with_cum_error(
        100i8,
        3,
        Rounding::Round,
        &mut cum_error,
    );
    assert_eq!(q, Some(33));
    assert_eq!(cum_error, 1);
}

#[test]
fn comparators_survive_the_most_negative_value() {
    assert!(cmp_abs_ge(i32::MIN, i32::MAX));
    assert!(!cmp_abs_ge(i32::MAX, i32::MIN));
    assert!(cmp_abs_ge(-5i32, 5));
    assert!(cmp_abs_ge(5i32, -5));
    assert!(!cmp_abs_ge(4i32, -5));

    assert!(cmp_abs_half_ge(i32::MIN, i32::MIN));
    assert!(cmp_abs_half_ge(i32::MIN / 2, i32::MAX));
    assert!(cmp_abs_half_ge(1i32, 2));
    assert!(!cmp_abs_half_ge(1i32, 3));
    assert!(!cmp_abs_half_ge(0i32, 1));

    assert!(!add_cmp_abs_lt(i32::MAX, i32::MAX));
    assert!(add_cmp_abs_lt(-1i32, 3));
    assert!(!add_cmp_abs_lt(3i32, 3));
    assert!(!sub_cmp_abs_lt(i32::MIN, i32::MAX));
    assert!(sub_cmp_abs_lt(1i32, 3));
    assert!(!sub_cmp_abs_lt(-3i32, 3));

    assert!(same_sign(4i32, 9));
    assert!(same_sign(-4i32, -9));
    assert!(!same_sign(-4i32, 9));
    assert!(!same_sign(4i32, -9));
}
