use geomcanvas::fixed::{Fixed, SCALE};
use geomcanvas::scalar::{nearly_equal, Scalar};

fn raw(r: i64) -> Fixed {
    Fixed::from_raw(r)
}

#[test]
fn constants() {
    assert_eq!(Fixed::zero().raw, 0);
    assert_eq!(Fixed::one().raw, 1 << 32);
    assert_eq!(SCALE, 1 << 32);
    assert_eq!(Fixed::epsilon().raw, 1);
    assert_eq!(Fixed::from_int(-3).raw, -3 * SCALE);
    assert_eq!(Fixed::from_int(i32::MIN).raw, i64::MIN);
    assert_eq!(Fixed::from_int(i32::MAX).raw, 0x7fff_ffff_0000_0000);
}

#[test]
fn counts() {
    assert_eq!(Fixed::from_count(0), raw(0));
    assert_eq!(Fixed::from_count(4), raw(4 * SCALE));
    assert_eq!(Fixed::from_count(0x7fff_ffff), raw(0x7fff_ffff * SCALE));
    assert_eq!(Fixed::from_count(0x8000_0000), raw(i64::MAX));
    assert_eq!(Fixed::from_count(usize::MAX), raw(i64::MAX));
}

#[test]
fn sums_stick_at_the_ends() {
    assert_eq!(raw(5).plus(raw(-7)), raw(-2));
    assert_eq!(raw(i64::MAX).plus(raw(1)), raw(i64::MAX));
    assert_eq!(raw(i64::MIN).plus(raw(-1)), raw(i64::MIN));
    assert_eq!(raw(i64::MIN).plus(raw(i64::MIN)), raw(i64::MIN));
    assert_eq!(raw(5).minus(raw(7)), raw(-2));
    assert_eq!(raw(0).minus(raw(i64::MIN)), raw(i64::MAX));
    assert_eq!(raw(i64::MIN).minus(raw(1)), raw(i64::MIN));
    assert_eq!(raw(-1).minus(raw(i64::MAX)), raw(i64::MIN));
}

#[test]
fn products_round_toward_zero() {
    let half = raw(SCALE / 2);
    assert_eq!(Fixed::from_int(3).times(Fixed::from_int(-4)), Fixed::from_int(-12));
    assert_eq!(half.times(half), raw(SCALE / 4));
    assert_eq!(raw(1).times(half), raw(0));
    assert_eq!(raw(-1).times(half), raw(0));
    assert_eq!(raw(3).times(half), raw(1));
    assert_eq!(raw(-3).times(half), raw(-1));
    assert_eq!(raw(i64::MAX).times(Fixed::from_int(2)), raw(i64::MAX));
    assert_eq!(raw(i64::MAX).times(Fixed::from_int(-2)), raw(i64::MIN));
    assert_eq!(raw(i64::MIN).times(raw(i64::MIN)), raw(i64::MAX));
    assert_eq!(raw(i64::MIN).times(Fixed::one()), raw(i64::MIN));
}

#[test]
fn quotients_round_toward_zero() {
    assert_eq!(Fixed::from_int(1).over(Fixed::from_int(4)), raw(SCALE / 4));
    assert_eq!(Fixed::from_int(-12).over(Fixed::from_int(4)), Fixed::from_int(-3));
    assert_eq!(Fixed::from_int(1).over(Fixed::from_int(3)), raw(0x5555_5555));
    assert_eq!(Fixed::from_int(-1).over(Fixed::from_int(3)), raw(-0x5555_5555));
    assert_eq!(raw(i64::MAX).over(raw(1)), raw(i64::MAX));
    assert_eq!(raw(i64::MIN).over(raw(1)), raw(i64::MIN));
    assert_eq!(raw(i64::MIN).over(raw(-1)), raw(i64::MAX));
    assert_eq!(raw(i64::MIN).over(raw(i64::MIN)), Fixed::one());
}

#[test]
fn a_zero_divisor_gives_an_end_of_the_range() {
    assert_eq!(raw(7).over(raw(0)), raw(i64::MAX));
    assert_eq!(raw(-7).over(raw(0)), raw(i64::MIN));
    assert_eq!(raw(0).over(raw(0)), raw(0));
}

#[test]
fn magnitudes_and_order() {
    assert_eq!(raw(-9).magnitude(), raw(9));
    assert_eq!(raw(9).magnitude(), raw(9));
    assert_eq!(raw(i64::MIN).magnitude(), raw(i64::MAX));
    assert!(raw(-1).less(raw(0)));
    assert!(!raw(0).less(raw(0)));
    assert!(!raw(1).less(raw(0)));
}

#[test]
fn only_equal_numbers_are_nearly_equal() {
    assert!(nearly_equal(raw(12), raw(12)));
    assert!(!nearly_equal(raw(12), raw(13)));
    assert!(!nearly_equal(raw(13), raw(12)));
    assert!(!nearly_equal(raw(i64::MIN), raw(i64::MAX)));
}

#[test]
fn specification_and_operation_agree() {
    let values = [i64::MIN, -SCALE, -3, -1, 0, 1, 2, SCALE / 2, SCALE, i64::MAX];
    for a in values {
        assert_eq!(raw(a).magnitude(), raw(if a == i64::MIN { i64::MAX } else { a.abs() }));
        for b in values {
            assert_eq!(raw(a).less(raw(b)), a < b);
            assert_eq!(raw(a).plus(raw(b)).raw as i128, (a as i128 + b as i128).clamp(i64::MIN as i128, i64::MAX as i128));
        }
    }
}
