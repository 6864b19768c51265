use dimer::rat::Rat;

#[test]
fn exact_addition_and_subtraction() {
    let a = Rat::new(1, 2);
    let b = Rat::new(1, 3);
    let s = a.add(b).unwrap();
    assert!(s.eqv(Rat::new(5, 6)));
    let d = a.sub(b).unwrap();
    assert!(d.eqv(Rat::new(1, 6)));
}

#[test]
fn exact_multiplication_and_division() {
    let a = Rat::new(3, 4);
    let b = Rat::new(-2, 5);
    let p = a.mul(b).unwrap();
    assert!(p.eqv(Rat::new(-6, 20)));
    assert!(p.eqv(Rat::new(-3, 10)));
    let q = a.div(b).unwrap();
    assert!(q.eqv(Rat::new(-15, 8)));
}

#[test]
fn division_keeps_denominator_positive() {
    let a = Rat::new(1, 2);
    let b = Rat::new(-1, 3);
    let q = a.div(b).unwrap();
    assert!(q.den > 0);
    assert!(q.eqv(Rat::new(-3, 2)));
}

#[test]
fn overflow_is_reported_not_wrapped() {
    let big = Rat::new(i64::MAX, 1);
    assert!(big.mul(big).is_none());
    assert!(big.add(Rat::new(1, i64::MAX)).is_none());
    let tiny = Rat::new(1, i64::MAX);
    assert!(tiny.half().is_none());
}

#[test]
fn comparisons_follow_the_denoted_numbers() {
    let a = Rat::new(2, 4);
    let b = Rat::new(1, 2);
    assert!(a.eqv(b));
    assert!(!a.lt(b));
    assert!(a.le(b));
    assert!(Rat::new(-1, 3).lt(Rat::new(1, 7)));
    assert!(Rat::new(-1, 3).is_nonneg() == false);
    assert!(Rat::zero().is_nonneg());
}

#[test]
fn minimum_and_magnitude() {
    let a = Rat::new(1, 4);
    let b = Rat::new(1, 3);
    assert!(a.min(b).eqv(a));
    assert!(b.min(a).eqv(a));
    assert!(Rat::new(-1, 5).abs_lt(Rat::new(1, 4)));
    assert!(!Rat::new(-1, 3).abs_lt(Rat::new(1, 4)));
    assert!(!Rat::new(1, 3).abs_lt(Rat::new(1, 4)));
}

#[test]
fn negation_and_doubling() {
    let a = Rat::new(7, 3);
    assert!(a.neg().unwrap().eqv(Rat::new(-7, 3)));
    assert!(a.double().unwrap().eqv(Rat::new(14, 3)));
    assert!(a.half().unwrap().eqv(Rat::new(7, 6)));
    assert!(Rat::new(i64::MIN, 1).neg().is_none());
}
