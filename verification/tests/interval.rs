use analysis::numerical::integer::BigInt;
use analysis::numerical::interval::{Bound, Interval};
use std::convert::TryFrom;

fn bnd(n: i128) -> Bound {
    Bound::from(n)
}

fn iv(low: i128, high: i128) -> Interval {
    Interval::new(bnd(low), bnd(high))
}

fn text(i: &Interval) -> String {
    i.to_debug_string()
}

#[test]
fn test_integer_cmp() {
    let ninf = Bound::NegativeInfinity;
    let a = Bound::from(-1_i128);
    let b = Bound::from(0_i128);
    let c = Bound::from(1_i128);
    let inf = Bound::Infinity;
    assert!(ninf < a && a < b && b < c && c < inf);
}

#[test]
fn bound_order_and_equality() {
    assert!(bnd(3) == bnd(3));
    assert!(bnd(3) != bnd(4));
    assert!(Bound::Infinity == Bound::Infinity);
    assert!(Bound::Infinity != Bound::NegativeInfinity);
    assert!(bnd(-5) < bnd(2));
    assert!(bnd(2) >= bnd(2));
    assert!(!(Bound::Infinity < Bound::Infinity));
    assert_eq!(bnd(7).cmp(&bnd(9)), std::cmp::Ordering::Less);
    assert_eq!(Bound::Infinity.cmp(&bnd(9)), std::cmp::Ordering::Greater);
    assert_eq!(Bound::NegativeInfinity.cmp(&Bound::NegativeInfinity), std::cmp::Ordering::Equal);
    assert!(bnd(0).is_finite());
    assert!(!Bound::Infinity.is_finite());
    assert!(Bound::from(u128::MAX) > Bound::from(i128::MAX));
}

#[test]
fn bound_arithmetic() {
    assert!(bnd(2) + bnd(3) == bnd(5));
    assert!(bnd(2) - bnd(3) == bnd(-1));
    assert!(bnd(-4) * bnd(6) == bnd(-24));
    assert!(bnd(7) / bnd(2) == bnd(3));
    assert!(bnd(-7) / bnd(2) == bnd(-3));
    assert!(bnd(7) / bnd(-2) == bnd(-3));
    // infinities
    assert!(Bound::Infinity + Bound::NegativeInfinity == Bound::Infinity);
    assert!(Bound::NegativeInfinity + bnd(5) == Bound::NegativeInfinity);
    assert!(Bound::Infinity - Bound::Infinity == Bound::Infinity);
    assert!(Bound::NegativeInfinity - Bound::NegativeInfinity == Bound::Infinity);
    assert!(bnd(5) - Bound::Infinity == Bound::NegativeInfinity);
    assert!(Bound::Infinity * bnd(-2) == Bound::NegativeInfinity);
    assert!(Bound::NegativeInfinity * bnd(-2) == Bound::Infinity);
    assert!(Bound::Infinity * bnd(0) == bnd(0));
    assert!(Bound::NegativeInfinity * Bound::NegativeInfinity == Bound::Infinity);
    assert!(Bound::Infinity / bnd(-3) == Bound::NegativeInfinity);
    assert!(Bound::Infinity / Bound::Infinity == Bound::Infinity);
    assert!(bnd(12) / Bound::NegativeInfinity == bnd(0));
    assert!(bnd(0) / Bound::Infinity == bnd(0));
}

#[test]
fn bound_arithmetic_beyond_machine_words() {
    let two_64 = Bound::from(1u128 << 64);
    let product = two_64.clone() * two_64;
    assert!(product == Bound::Int(BigInt { negative: false, magnitude: vec![0, 0, 1] }));
    assert!(product > Bound::from(u128::MAX));
    assert_eq!(product.to_debug_string(), "340282366920938463463374607431768211456");
    let neg = Bound::from(i128::MIN) - Bound::from(i128::MAX);
    assert_eq!(neg.to_debug_string(), "-340282366920938463463374607431768211455");
}

#[test]
fn bound_text() {
    assert_eq!(Bound::Infinity.to_debug_string(), "∞");
    assert_eq!(Bound::NegativeInfinity.to_debug_string(), "-∞");
    assert_eq!(bnd(-42).to_debug_string(), "-42");
    assert_eq!(bnd(0).to_debug_string(), "0");
}

#[test]
fn interval_top_bottom() {
    assert!(Interval::top().is_top());
    assert!(!Interval::top().is_bottom());
    assert!(Interval::bottom().is_bottom());
    assert!(!Interval::bottom().is_top());
    assert!(iv(3, 1).is_bottom());
    assert!(!iv(1, 3).is_bottom());
    assert_eq!(text(&Interval::bottom()), "⊥");
    assert_eq!(text(&Interval::top()), "[-∞, ∞]");
    assert_eq!(text(&iv(-1, 4)), "[-1, 4]");
}

#[test]
fn interval_comparisons() {
    let a = iv(1, 2);
    let b = iv(3, 4);
    let c = iv(2, 5);
    assert_eq!(a.less_than(&b), Some(true));
    assert_eq!(b.less_than(&a), Some(false));
    assert_eq!(a.less_than(&c), None);
    assert_eq!(a.less_equal(&c), Some(true));
    assert_eq!(c.less_equal(&a), None);
    assert_eq!(b.greater_than(&a), Some(true));
    assert_eq!(a.greater_than(&b), Some(false));
    assert_eq!(c.greater_equal(&a), Some(true));
    assert_eq!(a.greater_equal(&b), Some(false));
    // top and bottom are never compared
    assert_eq!(Interval::top().less_than(&a), None);
    assert_eq!(a.less_equal(&Interval::bottom()), None);
    // duality: a < b is decided as b > a
    assert_eq!(a.less_than(&b), b.greater_than(&a));
    assert_eq!(c.less_equal(&b), b.greater_equal(&c));
}

#[test]
fn interval_equality() {
    assert_eq!(iv(5, 5).equal_to(&iv(5, 5)), Some(true));
    assert_eq!(iv(5, 5).equal_to(&iv(6, 6)), Some(false));
    assert_eq!(iv(5, 6).equal_to(&iv(5, 5)), None);
    assert_eq!(iv(5, 5).not_equal_to(&iv(6, 6)), Some(true));
    assert_eq!(iv(5, 5).not_equal_to(&iv(5, 5)), Some(false));
    assert_eq!(Interval::top().not_equal_to(&iv(1, 1)), None);
    assert!(iv(1, 2) == iv(1, 2));
    assert!(iv(1, 2) != iv(1, 3));
}

#[test]
fn interval_conversions() {
    let n = BigInt::try_from(iv(9, 9)).unwrap();
    assert!(Bound::from(n) == bnd(9));
    assert_eq!(BigInt::try_from(iv(9, 10)).err(), Some("interval is not a integer"));
    assert!(BigInt::try_from(&iv(-3, -3)).unwrap() == BigInt { negative: true, magnitude: vec![3] });
    assert_eq!(BigInt::try_from(&Interval::top()).err(), Some("interval is not a integer"));
    assert_eq!(bool::try_from(iv(1, 1)), Ok(true));
    assert_eq!(bool::try_from(iv(0, 0)), Ok(false));
    assert_eq!(bool::try_from(iv(0, 1)), Err("interval is not a bool"));
    assert!(Interval::from(true) == iv(1, 1));
    assert!(Interval::from(false) == iv(0, 0));
    // round trip
    assert_eq!(bool::try_from(Interval::from(true)), Ok(true));
    assert_eq!(bool::try_from(Interval::from(false)), Ok(false));
}

#[test]
fn interval_add_sub() {
    assert!(iv(1, 2) + iv(10, 20) == iv(11, 22));
    assert!(iv(1, 2) - iv(10, 20) == iv(-19, -8));
    let half = Interval::new(bnd(0), Bound::Infinity);
    assert_eq!(text(&(half.clone() + iv(-5, 5))), "[-5, ∞]");
    assert_eq!(text(&(iv(0, 0) - half)), "[-∞, 0]");
}

#[test]
fn interval_mul_div() {
    assert!(iv(-2, 3) * iv(4, 5) == iv(-10, 15));
    assert!(iv(-2, 3) * iv(-5, -4) == iv(-15, 10));
    let nonneg = Interval::new(bnd(0), Bound::Infinity);
    assert_eq!(text(&(nonneg.clone() * iv(-1, 0))), "[-∞, 0]");
    assert_eq!(text(&(Interval::top() * iv(0, 0))), "[0, 0]");
    assert!(iv(10, 20) / iv(2, 5) == iv(2, 10));
    assert!(iv(-7, 7) / iv(2, 2) == iv(-3, 3));
    assert!(iv(10, 20) / iv(-5, -2) == iv(-10, -2));
    assert_eq!(text(&(nonneg / iv(1, 2))), "[0, ∞]");
    // a divisor interval that holds zero gives an interval missing quotients
    let q = iv(7, 7) / iv(-2, 3);
    assert!(q == iv(-3, 2));
    assert_eq!(q.less_than(&iv(7, 7)), Some(true));
}

#[test]
fn interval_bitand() {
    assert!((iv(12, 12) & iv(10, 10)) == iv(8, 8));
    assert!((iv(-1, -1) & iv(3, 9)) == iv(3, 9));
    assert!((iv(3, 9) & iv(-1, -1)) == iv(3, 9));
    assert!((iv(0, 0) & Interval::new(bnd(2), Bound::Infinity)) == iv(0, 0));
    assert!((iv(-8, -8) & iv(7, 7)) == iv(0, 0));
    assert!((iv(1, 2) & iv(3, 3)).is_top());
    assert!((Interval::bottom() & iv(1, 1)).is_bottom());
    assert!((Interval::top() & iv(0, 0)).is_top());
}

#[test]
fn interval_bitor_bitxor() {
    assert!((iv(12, 12) | iv(10, 10)) == iv(14, 14));
    assert!((iv(-1, -1) | iv(3, 9)) == iv(-1, -1));
    assert!((iv(0, 0) | iv(3, 9)) == iv(3, 9));
    assert!((iv(1, 2) | iv(4, 4)).is_top());
    assert!((iv(12, 12) ^ iv(10, 10)) == iv(6, 6));
    assert!((iv(-1, -1) ^ iv(5, 5)) == iv(-6, -6));
    assert!((iv(3, 9) ^ iv(0, 0)) == iv(3, 9));
    assert!((Interval::bottom() ^ Interval::top()).is_bottom());
}

#[test]
fn interval_shifts() {
    assert!((iv(3, 3) << iv(4, 4)) == iv(48, 48));
    assert!((iv(-3, -3) << iv(1, 1)) == iv(-6, -6));
    assert!((iv(48, 48) >> iv(4, 4)) == iv(3, 3));
    assert!((iv(-7, -7) >> iv(1, 1)) == iv(-4, -4));
    assert!((iv(1, 1) << iv(-1, -1)).is_top());
    assert!((iv(1, 1) >> Bound::from(1u128 << 40).into_interval()).is_top());
    assert!((iv(1, 2) << iv(1, 1)).is_top());
    assert!((Interval::bottom() >> iv(1, 1)).is_bottom());
    let big = iv(1, 1) << iv(100, 100);
    assert_eq!(text(&big), "[1267650600228229401496703205376, 1267650600228229401496703205376]");
}

trait IntoInterval {
    fn into_interval(self) -> Interval;
}

impl IntoInterval for Bound {
    fn into_interval(self) -> Interval {
        Interval::new(self.clone(), self)
    }
}

#[test]
fn interval_soundness_examples() {
    // every sum, difference and product of members lies in the computed interval
    let a = iv(-3, 4);
    let b = iv(-2, 5);
    let sum = a.clone() + b.clone();
    let diff = a.clone() - b.clone();
    let prod = a.clone() * b.clone();
    for x in -3..=4i128 {
        for y in -2..=5i128 {
            let holds = |r: &Interval, v: i128| r.low <= bnd(v) && bnd(v) <= r.high;
            assert!(holds(&sum, x + y));
            assert!(holds(&diff, x - y));
            assert!(holds(&prod, x * y));
        }
    }
    let c = iv(2, 5);
    let quot = a.clone() / c.clone();
    for x in -3..=4i128 {
        for y in 2..=5i128 {
            assert!(quot.low <= bnd(x / y) && bnd(x / y) <= quot.high);
        }
    }
}
