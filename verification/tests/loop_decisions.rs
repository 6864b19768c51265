use dimer::cg::{BetaKind, ConjugateGradient, RestartMethod};
use dimer::options::UserOptions;
use dimer::rat::Rat;
use dimer::rotation::{
    check_dimer_rotation_convergence, choose_trial_angle, next_rotation_decision, RotationDecision,
};
use dimer::translation::next_translation_step;

fn v(entries: &[(i64, i64)]) -> Vec<Rat> {
    entries.iter().map(|&(n, d)| Rat::new(n, d)).collect()
}

#[test]
fn convergence_compares_the_magnitude() {
    let tol = Rat::new(1, 10);
    assert!(check_dimer_rotation_convergence(Rat::new(1, 20), tol));
    assert!(check_dimer_rotation_convergence(Rat::new(-1, 20), tol));
    assert!(!check_dimer_rotation_convergence(Rat::new(1, 5), tol));
    assert!(!check_dimer_rotation_convergence(Rat::new(-1, 5), tol));
    assert!(!check_dimer_rotation_convergence(Rat::new(1, 10), tol));
}

#[test]
fn rotation_decision_orders_convergence_before_budget() {
    assert_eq!(next_rotation_decision(true, 7, 5), RotationDecision::Converged);
    assert_eq!(next_rotation_decision(false, 5, 5), RotationDecision::MaxIterReached);
    assert_eq!(next_rotation_decision(false, 4, 5), RotationDecision::Continue);
}

#[test]
fn trial_angle_is_fixed_or_capped() {
    let configured = Rat::new(11, 14);
    let small_estimate = Rat::new(1, 5);
    let large_estimate = Rat::new(9, 10);
    assert!(choose_trial_angle(true, configured, small_estimate).eqv(configured));
    assert!(choose_trial_angle(false, configured, small_estimate).eqv(small_estimate));
    assert!(choose_trial_angle(false, configured, large_estimate).eqv(configured));
}

#[test]
fn translation_reverses_the_projection_in_the_convex_region() {
    let f0 = v(&[(1, 1), (2, 1)]);
    let t = v(&[(3, 5), (4, 5)]);
    // f0 . t = 11/5; the projection is (33/25, 44/25)
    let eff = next_translation_step(&f0, &t, Rat::new(1, 2)).unwrap();
    assert!(eff[0].eqv(Rat::new(-33, 25)));
    assert!(eff[1].eqv(Rat::new(-44, 25)));
}

#[test]
fn translation_inverts_the_mode_component_on_a_negative_curvature() {
    let f0 = v(&[(1, 1), (2, 1)]);
    let t = v(&[(3, 5), (4, 5)]);
    let eff = next_translation_step(&f0, &t, Rat::new(-1, 2)).unwrap();
    // f0 - 2 (f0 . t) t = (1 - 66/25, 2 - 88/25)
    assert!(eff[0].eqv(Rat::new(-41, 25)));
    assert!(eff[1].eqv(Rat::new(-38, 25)));
}

#[test]
fn zero_curvature_counts_as_nonnegative() {
    let f0 = v(&[(1, 1), (0, 1)]);
    let t = v(&[(1, 1), (0, 1)]);
    let eff = next_translation_step(&f0, &t, Rat::zero()).unwrap();
    assert!(eff[0].eqv(Rat::new(-1, 1)));
    assert!(eff[1].eqv(Rat::zero()));
}

#[test]
fn default_options_hold_the_documented_values() {
    let o = UserOptions::default();
    assert!(o.fmax.eqv(Rat::new(1, 10)));
    assert!(o.distance.eqv(Rat::new(1, 1000)));
    assert!(o.use_fixed_rot_angle);
    assert_eq!(o.max_num_rot, 5);
    assert_eq!(o.max_num_trans, 50);
    assert!(!o.use_extrapolated_force);
    assert!(o.use_cg_rot);
    // the angle defaults approximate five degrees and a quarter turn in
    // radians to fifteen decimal places
    assert!(o.min_rot_angle.eqv(Rat::new(87266462599716, 1000000000000000)));
    assert!(o.trial_rot_angle.eqv(Rat::new(7853981633974483, 10000000000000000)));
    assert_eq!(o.cg_beta_kind, BetaKind::PR);
    assert_eq!(o.cg_restart_method, RestartMethod::Powell);
    assert!(o.cg_beta_damping.eqv(Rat::new(4, 5)));
}

#[test]
fn a_propagator_takes_its_configuration_from_the_options() {
    let mut o = UserOptions::default();
    o.cg_beta_kind = BetaKind::FR;
    o.cg_restart_method = RestartMethod::Negative;
    o.cg_beta_damping = Rat::new(1, 2);
    let cg = ConjugateGradient::from_options(&o);
    assert!(cg.state.is_none());
    assert_eq!(cg.beta, BetaKind::FR);
    assert_eq!(cg.restart, RestartMethod::Negative);
    assert!(cg.beta_damping.eqv(Rat::new(1, 2)));
}
