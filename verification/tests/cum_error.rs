use int_div_cum_error::{
    checked_divide, checked_divide_with_cum_error, checked_divide_with_rounding, Rounding,
};

fn test_rounding_fib(a: i32, b: i32, rounding: Rounding) {
    let mut cum_error = 0_i32;
    let mut i0 = a;
    let mut i1 = a;
    let mut isum = 0_i32;
    let mut ret = 0_i32;
    while isum.abs() < 1_000_000_000 {
        let ix = i0 + i1;

        ret += checked_divide_with_cum_error(ix, b, rounding, &mut cum_error).unwrap();
        i0 = i1;
        i1 = ix;
        isum += ix;

        let q = checked_divide_with_rounding(isum, b, rounding).unwrap();
        let r = isum - q * b;
        assert_eq!(q, ret);
        assert_eq!(r, cum_error);
    }
}

fn do_test(a: i32, b: i32) {
    test_rounding_fib(a, b, Rounding::Floor);
    test_rounding_fib(a, b, Rounding::Ceiling);
    test_rounding_fib(a, b, Rounding::Round);
    test_rounding_fib(a, b, Rounding::AwayFromZero);
    test_rounding_fib(a, b, Rounding::TowardsZero);
}

fn test(b: i32) {
    do_test(1, b);
    do_test(-1, b);
    do_test(1, -b);
    do_test(-1, -b);
}

#[test]
fn many_test() {
    for b in 1..100 {
        test(b * 3 + 6);
        test(b * 13 + 7);
        test(b * 113 + 8);
        test(b * 1113 + 9);
        test(b * 11113 + 9);
        test(b * 111113 + 9);
        test(b * 1111113 + 9);
    }
    println!("done");
}

fn do_test_overflow(a: i32, b: i32) {
    let mut cum_error = 0_i32;
    checked_divide_with_cum_error(a, b, Rounding::Floor, &mut cum_error).unwrap();
    checked_divide_with_cum_error(a, b, Rounding::Floor, &mut cum_error).unwrap();
    checked_divide_with_cum_error(a, b, Rounding::Floor, &mut cum_error).unwrap();
    checked_divide_with_cum_error(a, b, Rounding::Floor, &mut cum_error).unwrap();
    let mut cum_error = 0_i32;
    checked_divide_with_cum_error(a, b, Rounding::Ceiling, &mut cum_error).unwrap();
    checked_divide_with_cum_error(a, b, Rounding::Ceiling, &mut cum_error).unwrap();
    checked_divide_with_cum_error(a, b, Rounding::Ceiling, &mut cum_error).unwrap();
    checked_divide_with_cum_error(a, b, Rounding::Ceiling, &mut cum_error).unwrap();
    let mut cum_error = 0_i32;
    checked_divide_with_cum_error(a, b, Rounding::Round, &mut cum_error).unwrap();
    checked_divide_with_cum_error(a, b, Rounding::Round, &mut cum_error).unwrap();
    checked_divide_with_cum_error(a, b, Rounding::Round, &mut cum_error).unwrap();
    checked_divide_with_cum_error(a, b, Rounding::Round, &mut cum_error).unwrap();
    let mut cum_error = 0_i32;
    checked_divide_with_cum_error(a, b, Rounding::TowardsZero, &mut cum_error).unwrap();
    checked_divide_with_cum_error(a, b, Rounding::TowardsZero, &mut cum_error).unwrap();
    checked_divide_with_cum_error(a, b, Rounding::TowardsZero, &mut cum_error).unwrap();
    checked_divide_with_cum_error(a, b, Rounding::TowardsZero, &mut cum_error).unwrap();
    let mut cum_error = 0_i32;
    checked_divide_with_cum_error(a, b, Rounding::AwayFromZero, &mut cum_error).unwrap();
    checked_divide_with_cum_error(a, b, Rounding::AwayFromZero, &mut cum_error).unwrap();
    checked_divide_with_cum_error(a, b, Rounding::AwayFromZero, &mut cum_error).unwrap();
    checked_divide_with_cum_error(a, b, Rounding::AwayFromZero, &mut cum_error).unwrap();
}

#[test]
fn test_overflow() {
    do_test_overflow(i32::MAX - 100, i32::MAX);
    do_test_overflow(i32::MIN + 100, i32::MIN);
    do_test_overflow(i32::MAX - 100, i32::MIN);
    do_test_overflow(i32::MIN + 100, i32::MAX);

    do_test_overflow(i32::MAX / 2, i32::MAX);
    do_test_overflow(i32::MIN / 2, i32::MIN);
    do_test_overflow(i32::MAX / 2, i32::MIN);
    do_test_overflow(i32::MIN / 2, i32::MAX);

    do_test_overflow(i32::MAX / 3, i32::MAX);
    do_test_overflow(i32::MIN / 3, i32::MIN);
    do_test_overflow(i32::MAX / 3, i32::MIN);
    do_test_overflow(i32::MIN / 3, i32::MAX);

    do_test_overflow(i32::MAX / 3 * 2, i32::MAX);
    do_test_overflow(i32::MIN / 3 * 2, i32::MIN);
    do_test_overflow(i32::MAX / 3 * 2, i32::MIN);
    do_test_overflow(i32::MIN / 3 * 2, i32::MAX);
}

#[test]
fn split_dividend_round_scenario() {
    // three divisions of 20 by 3 under Round, fed through one accumulator,
    // sum to the one division of 60 by 3
    let mut cum_error = 0_i32;

    let q1 = checked_divide_with_cum_error(20, 3, Rounding::Round, &mut cum_error).unwrap();
    assert_eq!(q1, 7);
    assert_eq!(cum_error, -1);

    let q2 = checked_divide_with_cum_error(20, 3, Rounding::Round, &mut cum_error).unwrap();
    assert_eq!(q2, 6);
    assert_eq!(cum_error, 1);

    let q3 = checked_divide_with_cum_error(20, 3, Rounding::Round, &mut cum_error).unwrap();
    assert_eq!(q3, 7);
    assert_eq!(cum_error, 0);

    assert_eq!(q1 + q2 + q3, 20);
    assert_eq!(checked_divide_with_rounding(60, 3, Rounding::Round), Some(20));
}

#[test]
fn overflow_fallback_single_step() {
    // an accumulator near the boundary: adding the remainder would leave
    // the width, so the call corrects by exactly one divisor unit and the
    // step identity cum_error + right * q == old cum_error + left still
    // holds, without a panic
    let old: i32 = i32::MAX - 10;
    let mut cum_error = old;
    let q = checked_divide_with_cum_error(100, 70, Rounding::Floor, &mut cum_error).unwrap();
    assert_eq!(q, 2);
    assert_eq!(cum_error, i32::MAX - 50);
    assert_eq!(i64::from(cum_error) + 70 * i64::from(q), i64::from(old) + 100);

    // the same near the negative boundary, with signs reversed
    let old: i32 = i32::MIN + 10;
    let mut cum_error = old;
    let q = checked_divide_with_cum_error(-100, -70, Rounding::Floor, &mut cum_error).unwrap();
    assert_eq!(q, 2);
    assert_eq!(cum_error, i32::MIN + 50);
    assert_eq!(i64::from(cum_error) + (-70) * i64::from(q), i64::from(old) - 100);
}

#[test]
fn division_by_zero_keeps_accumulator() {
    let mut cum_error = 5_i32;
    assert_eq!(
        checked_divide_with_cum_error(5, 0, Rounding::Round, &mut cum_error),
        None
    );
    assert_eq!(cum_error, 5);
}

#[test]
fn overflowing_quotient_keeps_accumulator() {
    let mut cum_error = 3_i32;
    assert_eq!(
        checked_divide_with_cum_error(i32::MIN, -1, Rounding::TowardsZero, &mut cum_error),
        None
    );
    assert_eq!(cum_error, 3);
}

#[test]
fn exact_division_leaves_accumulator() {
    let mut cum_error = 2_i32;
    for rounding in [
        Rounding::Round,
        Rounding::Floor,
        Rounding::Ceiling,
        Rounding::TowardsZero,
        Rounding::AwayFromZero,
    ] {
        let q = checked_divide_with_cum_error(-21, 3, rounding, &mut cum_error).unwrap();
        assert_eq!(q, -7);
        assert_eq!(cum_error, 2);
    }
}

#[test]
fn checked_divide_dispatches() {
    let mut no_acc: Option<i32> = None;
    assert_eq!(checked_divide(20, 3, Rounding::Round, &mut no_acc), Some(7));
    assert_eq!(no_acc, None);

    let mut acc: Option<i32> = Some(0);
    assert_eq!(checked_divide(20, 3, Rounding::Round, &mut acc), Some(7));
    assert_eq!(acc, Some(-1));
    assert_eq!(checked_divide(20, 3, Rounding::Round, &mut acc), Some(6));
    assert_eq!(acc, Some(1));

    let mut acc: Option<i32> = Some(0);
    assert_eq!(checked_divide(5, 0, Rounding::Round, &mut acc), None);
    assert_eq!(acc, Some(0));
}
