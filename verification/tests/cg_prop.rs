use dimer::cg::{powell_test, BetaKind, ConjugateGradient, RestartMethod};
use dimer::rat::Rat;

fn v(entries: &[(i64, i64)]) -> Vec<Rat> {
    entries.iter().map(|&(n, d)| Rat::new(n, d)).collect()
}

#[test]
fn first_call_returns_the_forces_unchanged() {
    let mut cg = ConjugateGradient::fresh();
    let forces = v(&[(1, 1), (2, 1)]);
    let dir = cg.propagate(&forces).unwrap();
    assert!(dir[0].eqv(Rat::new(1, 1)));
    assert!(dir[1].eqv(Rat::new(2, 1)));
    assert!(cg.state.is_some());
}

#[test]
fn first_call_returns_the_projected_forces() {
    let mut cg = ConjugateGradient::fresh();
    let forces = v(&[(1, 1), (2, 1)]);
    let tau = v(&[(1, 1), (0, 1)]);
    let dir = cg.propagate_dimer(&forces, Some(&tau)).unwrap();
    // the rejection of (1, 2) against (1, 0) is (0, 2)
    assert!(dir[0].eqv(Rat::zero()));
    assert!(dir[1].eqv(Rat::new(2, 1)));
}

#[test]
fn powell_restart_zeroes_beta_when_the_ratio_is_exceeded() {
    let mut cg = ConjugateGradient::fresh();
    assert_eq!(cg.restart, RestartMethod::Powell);
    let f = v(&[(1, 1), (0, 1)]);
    cg.propagate(&f).unwrap();
    // |f'|^2 / (f' . f) = 1 >= 1/5: conjugacy is lost, beta becomes zero and
    // the direction is exactly the new force
    let f2 = v(&[(1, 1), (0, 1)]);
    let dir = cg.propagate(&f2).unwrap();
    assert!(dir[0].eqv(Rat::new(1, 1)));
    assert!(dir[1].eqv(Rat::zero()));
}

#[test]
fn negative_restart_clamps_a_negative_beta() {
    let mut cg = ConjugateGradient::fresh();
    cg.restart = RestartMethod::Negative;
    assert_eq!(cg.beta, BetaKind::PR);
    let f = v(&[(1, 1), (0, 1)]);
    cg.propagate(&f).unwrap();
    // Polak-Ribiere: f' . (f' - f) / |f|^2 = (-1/4) / 1 < 0, clamped to zero
    let f2 = v(&[(1, 2), (0, 1)]);
    let dir = cg.propagate(&f2).unwrap();
    assert!(dir[0].eqv(Rat::new(1, 2)));
    assert!(dir[1].eqv(Rat::zero()));
}

#[test]
fn undamped_conjugate_mixing_is_exact() {
    let mut cg = ConjugateGradient::fresh();
    cg.restart = RestartMethod::Negative;
    let f = v(&[(1, 1), (0, 1)]);
    cg.propagate(&f).unwrap();
    // Polak-Ribiere: f' . (f' - f) / |f|^2 = 2, damped by 4/5 to 8/5;
    // direction = f' + (8/5) conjct = (2, 0) + (8/5, 0)
    let f2 = v(&[(2, 1), (0, 1)]);
    let dir = cg.propagate(&f2).unwrap();
    assert!(dir[0].eqv(Rat::new(18, 5)));
    assert!(dir[1].eqv(Rat::zero()));
}

#[test]
fn powell_test_decides_the_ratio_exactly() {
    // ratio 1 >= 1/5: exceeded
    assert_eq!(powell_test(Rat::new(1, 1), Rat::new(1, 1)), Some(true));
    // ratio exactly 1/5: exceeded (the threshold is inclusive)
    assert_eq!(powell_test(Rat::new(1, 5), Rat::new(1, 1)), Some(true));
    // ratio 1/100 < 1/5: conjugacy kept
    assert_eq!(powell_test(Rat::new(1, 100), Rat::new(1, 1)), Some(false));
    // a vanishing inner product restarts only against a real force
    assert_eq!(powell_test(Rat::new(1, 1), Rat::zero()), Some(true));
    assert_eq!(powell_test(Rat::zero(), Rat::zero()), Some(false));
    // a negative inner product never restarts
    assert_eq!(powell_test(Rat::new(1, 1), Rat::new(-1, 1)), Some(false));
}

#[test]
fn failed_propagation_leaves_the_history_untouched() {
    let mut cg = ConjugateGradient::fresh();
    let f = v(&[(i64::MAX, 1), (0, 1)]);
    // the squared norm of the forces is not representable, so the second
    // call fails; the stored history must survive unchanged
    cg.propagate(&f).unwrap();
    let r = cg.propagate(&f);
    assert!(r.is_none());
    let st = cg.state.as_ref().unwrap();
    assert!(st.forces[0].eqv(Rat::new(i64::MAX, 1)));
}
