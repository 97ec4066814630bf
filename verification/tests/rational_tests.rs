use tixy::rational::Rat;

#[test]
fn rational_arithmetic_is_exact() {
    let a = Rat::new(1, 3);
    let b = Rat::new(1, 6);
    assert!(a.plus(&b).unwrap().eq_value(&Rat::new(1, 2)));
    assert!(a.minus(&b).unwrap().eq_value(&Rat::new(1, 6)));
    assert!(a.times(&b).unwrap().eq_value(&Rat::new(1, 18)));
    assert!(a.divided(&b).unwrap().eq_value(&Rat::new(2, 1)));
    assert!(a.neg().eq_value(&Rat::new(-1, 3)));
}

#[test]
fn rational_comparisons_cross_multiply() {
    let a = Rat::new(2, 3);
    let b = Rat::new(3, 4);
    assert!(a.lt(&b));
    assert!(!b.lt(&a));
    assert!(a.le(&b));
    assert!(a.le(&Rat::new(4, 6)));
    assert!(a.eq_value(&Rat::new(4, 6)));
    assert!(Rat::new(-1, 2).is_neg());
    assert!(!Rat::new(0, 7).is_neg());
    assert!(Rat::new(0, 7).is_zero());
}

#[test]
fn rational_overflow_is_reported_not_wrapped() {
    let big = Rat::new(i64::MAX, 1);
    assert_eq!(big.times(&big), None);
    assert!(big.times(&Rat::new(1, 3)).is_some());
}
