use dimer::fourier::{get_extrapolated_force, trial_angle_degenerate, FourierRotation};
use dimer::rat::Rat;
use dimer::DimerError;

// A trial angle of a quarter turn (`phi1 = pi/4`) makes the doubled angle a
// half turn, whose sine is one and cosine is zero: every quantity of the fit
// is then exact.
fn quarter_turn_fit() -> FourierRotation {
    let c0 = Rat::new(-2, 1);
    let c0d = Rat::new(-4, 1);
    let c1 = Rat::new(3, 1);
    let s2 = Rat::new(1, 1);
    let c2 = Rat::new(0, 1);
    FourierRotation::new(c0, c0d, s2, c2, c1).unwrap()
}

#[test]
fn fit_coefficients_are_the_closed_form() {
    let m = quarter_turn_fit();
    // b1 = c0d / 2, a1 = (c0 - c1 + b1 s2) / (1 - c2), a0 = 2 (c0 - a1)
    assert!(m.b1.eqv(Rat::new(-2, 1)));
    assert!(m.a1.eqv(Rat::new(-7, 1)));
    assert!(m.a0.eqv(Rat::new(10, 1)));
}

#[test]
fn fit_reproduces_curvature_at_angle_zero() {
    let m = quarter_turn_fit();
    // at angle zero the doubled angle has cosine one and sine zero
    let c = m.curvature(Rat::new(1, 1), Rat::new(0, 1)).unwrap();
    assert!(c.eqv(Rat::new(-2, 1)));
}

#[test]
fn fit_reproduces_curvature_at_the_trial_angle() {
    let m = quarter_turn_fit();
    let c = m.curvature(Rat::new(0, 1), Rat::new(1, 1)).unwrap();
    assert!(c.eqv(Rat::new(3, 1)));
}

#[test]
fn degenerate_trial_angle_is_rejected() {
    let c0 = Rat::new(-2, 1);
    let c0d = Rat::new(-4, 1);
    let c1 = Rat::new(3, 1);
    // a trial angle that is a multiple of pi has cos(2 phi1) == 1
    let r = FourierRotation::new(c0, c0d, Rat::new(0, 1), Rat::new(1, 1), c1);
    assert_eq!(r.unwrap_err(), DimerError::InvalidTrialAngle);
    // an equivalent unreduced form of one is rejected too
    let r2 = FourierRotation::new(c0, c0d, Rat::new(0, 1), Rat::new(3, 3), c1);
    assert_eq!(r2.unwrap_err(), DimerError::InvalidTrialAngle);
}

#[test]
fn degenerate_trial_angle_is_decided_exactly() {
    assert!(trial_angle_degenerate(Rat::new(1, 1)));
    assert!(trial_angle_degenerate(Rat::new(3, 3)));
    assert!(!trial_angle_degenerate(Rat::new(0, 1)));
    assert!(!trial_angle_degenerate(Rat::new(-1, 1)));
}

#[test]
fn extrapolated_force_is_the_stated_combination() {
    let f1 = vec![Rat::new(1, 1), Rat::new(-2, 1)];
    let f1_prime = vec![Rat::new(3, 1), Rat::new(6, 1)];
    let a = Rat::new(1, 2);
    let b = Rat::new(1, 3);
    let c = Rat::new(1, 4);
    // (a + c) f1 + b f1_prime = (3/4) f1 + (1/3) f1_prime
    let out = get_extrapolated_force(&f1, &f1_prime, a, b, c).unwrap();
    assert!(out[0].eqv(Rat::new(7, 4)));
    assert!(out[1].eqv(Rat::new(1, 2)));
}

#[test]
fn true_forces_always_adopt_the_correction() {
    let c0 = Rat::new(-2, 1);
    let naive = Rat::new(-1, 1);
    let alternate = Rat::new(5, 1);
    // naive > c0, so with re-evaluated forces the alternate is adopted even
    // though its curvature here is worse than the naive one
    let (used, kept) = FourierRotation::resolve_rotation(c0, naive, alternate, false);
    assert!(used);
    assert!(kept.eqv(alternate));
}

#[test]
fn extrapolated_forces_adopt_only_a_double_undercut() {
    let c0 = Rat::new(-2, 1);
    let naive = Rat::new(-1, 1);
    // alternate lower than both: adopted
    let low = Rat::new(-3, 1);
    let (used, kept) = FourierRotation::resolve_rotation(c0, naive, low, true);
    assert!(used);
    assert!(kept.eqv(low));
    // alternate between c0 and naive: kept out
    let middling = Rat::new(-3, 2);
    let (used2, kept2) = FourierRotation::resolve_rotation(c0, naive, middling, true);
    assert!(!used2);
    assert!(kept2.eqv(naive));
    // alternate above naive: kept out
    let high = Rat::new(0, 1);
    let (used3, kept3) = FourierRotation::resolve_rotation(c0, naive, high, true);
    assert!(!used3);
    assert!(kept3.eqv(naive));
}

#[test]
fn corrected_angle_lowers_the_curvature_at_a_fitted_maximum() {
    // a model whose critical point has the exactly representable doubled
    // angle (cos, sin) = (4/5, 3/5): with a1 = 4 and b1 = 3 the relation
    // cm b1 == sm a1 holds, and c0 = a0/2 + a1 = 5
    let m = FourierRotation {
        a0: Rat::new(2, 1),
        a1: Rat::new(4, 1),
        b1: Rat::new(3, 1),
        c0: Rat::new(5, 1),
    };
    let cm = Rat::new(4, 5);
    let sm = Rat::new(3, 5);
    let naive = m.curvature(cm, sm).unwrap();
    // 1 + 16/5 + 9/5 = 6 > c0: the fit found a maximum
    assert!(naive.eqv(Rat::new(6, 1)));
    assert!(m.c0.lt(naive));
    // a quarter turn away the doubled angle is negated
    let alternate = m.curvature(cm.neg().unwrap(), sm.neg().unwrap()).unwrap();
    assert!(alternate.eqv(Rat::new(-4, 1)));
    // the non-extrapolated path adopts it, and it is indeed lower
    let (used, kept) = FourierRotation::resolve_rotation(m.c0, naive, alternate, false);
    assert!(used);
    assert!(kept.le(naive));
    assert!(kept.eqv(alternate));
}

#[test]
fn no_correction_when_the_fit_found_a_minimum() {
    let c0 = Rat::new(-2, 1);
    let naive = Rat::new(-5, 2);
    let alternate = Rat::new(-10, 1);
    let (used, kept) = FourierRotation::resolve_rotation(c0, naive, alternate, false);
    assert!(!used);
    assert!(kept.eqv(naive));
}
