use qtable::binary64::{
    less_than, nan, ordered, rank_of, same_number, INFINITY_BITS, ONE_BITS, SIGN_BIT,
};
use qtable::{QValue, QValueError};
use std::cmp::Ordering;

fn value(x: f64) -> QValue {
    QValue::new(x.to_bits()).unwrap()
}

#[test]
fn constants_are_the_patterns_they_name() {
    assert_eq!(ONE_BITS, 1.0f64.to_bits());
    assert_eq!(INFINITY_BITS, f64::INFINITY.to_bits());
    assert_eq!(SIGN_BIT, (-0.0f64).to_bits());
}

#[test]
fn new_accepts_the_half_open_range() {
    for x in [-1.0f64, -0.999, -0.5, -0.0, 0.0, f64::MIN_POSITIVE, 0.25, 0.74625, 0.9999999999999999] {
        let v = QValue::new(x.to_bits());
        assert!(v.is_ok(), "{x} must be accepted");
        assert_eq!(v.unwrap().bits(), x.to_bits());
    }
}

#[test]
fn new_rejects_what_lies_outside() {
    for x in [1.0f64, 1.5, -1.0000000000000002, -2.0, f64::INFINITY, f64::NEG_INFINITY, f64::NAN, -f64::NAN, f64::MAX] {
        assert_eq!(
            QValue::new(x.to_bits()).map(|v| v.bits()),
            Err(QValueError::OutOfRange { given: x.to_bits() }),
            "{x} must be rejected"
        );
    }
}

#[test]
fn largest_accepted_pattern_is_just_below_one() {
    assert!(QValue::new(ONE_BITS - 1).is_ok());
    assert!(QValue::new(ONE_BITS).is_err());
    assert!(QValue::new(SIGN_BIT + ONE_BITS).is_ok());
    assert!(QValue::new(SIGN_BIT + ONE_BITS + 1).is_err());
}

#[test]
fn value_keeps_its_number() {
    let v = value(0.74625);
    assert_eq!(f64::from_bits(v.bits()), 0.74625);
    let w = v;
    assert_eq!(w.bits(), v.bits());
}

#[test]
fn rank_is_the_signed_magnitude() {
    assert_eq!(rank_of(0), 0);
    assert_eq!(rank_of(SIGN_BIT), 0);
    assert_eq!(rank_of(5), 5);
    assert_eq!(rank_of(SIGN_BIT + 5), -5);
    assert_eq!(rank_of(u64::MAX), -(i64::MAX as i128));
    assert_eq!(rank_of(1.0f64.to_bits()), 0x3FF0_0000_0000_0000);
}

#[test]
fn rank_orders_as_the_numbers_do() {
    let xs = [
        f64::NEG_INFINITY, -1.5, -1.0, -0.5, -1e-300, -0.0, 0.0, 5e-324, 1e-300, 0.25, 0.5, 0.99,
        1.0, 2.0, 1e300, f64::INFINITY,
    ];
    for a in xs {
        for b in xs {
            assert_eq!(less_than(a.to_bits(), b.to_bits()), a < b, "{a} < {b}");
            assert_eq!(same_number(a.to_bits(), b.to_bits()), a == b, "{a} == {b}");
            assert_eq!(ordered(a.to_bits(), b.to_bits()), a.partial_cmp(&b), "{a} ? {b}");
        }
    }
}

#[test]
fn nan_is_told_apart_and_never_ordered() {
    assert!(nan(f64::NAN.to_bits()));
    assert!(nan((-f64::NAN).to_bits()));
    assert!(nan(INFINITY_BITS + 1));
    assert!(nan(u64::MAX));
    assert!(!nan(INFINITY_BITS));
    assert!(!nan(SIGN_BIT + INFINITY_BITS));
    assert!(!nan(0));
    let n = f64::NAN.to_bits();
    let half = 0.5f64.to_bits();
    assert!(!less_than(n, half));
    assert!(!less_than(half, n));
    assert!(!same_number(n, n));
    assert_eq!(ordered(n, half), None);
    assert_eq!(ordered(half, n), None);
}

#[test]
fn values_compare_as_numbers() {
    assert!(value(-0.5) < value(0.25));
    assert!(value(0.25) > value(-0.5));
    assert!(value(-1.0) <= value(-1.0));
    assert!(value(0.5) >= value(0.25));
    assert!(value(-0.75) < value(-0.25));
    assert!(value(0.5) == value(0.5));
    assert!(value(0.5) != value(0.25));
    assert_eq!(value(0.1).partial_cmp(&value(0.2)), Some(Ordering::Less));
    assert_eq!(value(0.2).partial_cmp(&value(0.2)), Some(Ordering::Equal));
    assert_eq!(value(0.2).partial_cmp(&value(0.1)), Some(Ordering::Greater));
}

#[test]
fn the_two_zeros_are_equal_values() {
    let plus = value(0.0);
    let minus = value(-0.0);
    assert_ne!(plus.bits(), minus.bits());
    assert!(plus == minus);
    assert_eq!(plus.partial_cmp(&minus), Some(Ordering::Equal));
    assert!(!(minus < plus));
}

fn scattered_patterns(count: usize) -> Vec<u64> {
    let mut seed: u64 = 0x2545_F491_4F6C_DD1D;
    let mut out = Vec::with_capacity(count);
    for i in 0..count {
        seed ^= seed << 13;
        seed ^= seed >> 7;
        seed ^= seed << 17;
        // Every fourth pattern is squeezed near the range of estimates.
        out.push(if i % 4 == 0 { (seed % 0x4010_0000_0000_0000) | (seed & SIGN_BIT) } else { seed });
    }
    out
}

#[test]
fn order_of_scattered_patterns_is_the_order_of_their_numbers() {
    let patterns = scattered_patterns(20000);
    for pair in patterns.windows(2) {
        let (a, b) = (pair[0], pair[1]);
        let (x, y) = (f64::from_bits(a), f64::from_bits(b));
        assert_eq!(nan(a), x.is_nan());
        assert_eq!(less_than(a, b), x < y);
        assert_eq!(less_than(b, a), y < x);
        assert_eq!(same_number(a, b), x == y);
        assert_eq!(same_number(a, a), x == x);
        assert_eq!(ordered(a, b), x.partial_cmp(&y));
    }
}

#[test]
fn scattered_patterns_are_accepted_exactly_in_the_range() {
    let mut accepted = 0;
    for bits in scattered_patterns(20000) {
        let x = f64::from_bits(bits);
        let inside = -1.0 <= x && x < 1.0;
        assert_eq!(QValue::new(bits).is_ok(), inside, "{x}");
        if inside {
            accepted += 1;
        }
    }
    assert!(accepted > 1000);
}
