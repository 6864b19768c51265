use dimer::rat::Rat;
use dimer::raw::RawDimer;
use dimer::vector;

fn v(entries: &[(i64, i64)]) -> Vec<Rat> {
    entries.iter().map(|&(n, d)| Rat::new(n, d)).collect()
}

// A two-dimensional dimer with axis (3, 4) / 5, so that every derived
// quantity, including the unit axis, is an exact rational.
fn sample_dimer() -> RawDimer {
    RawDimer {
        r0: v(&[(0, 1), (0, 1)]),
        f0: v(&[(0, 1), (0, 1)]),
        r1: v(&[(3, 1), (4, 1)]),
        f1: v(&[(5, 1), (10, 1)]),
        dr: Rat::new(5, 1),
    }
}

#[test]
fn extrapolate_gives_the_finite_difference_state() {
    let d = sample_dimer();
    let st = d.extrapolate().unwrap();
    // fr = (f1 - f0) / dr
    assert!(st.fr[0].eqv(Rat::new(1, 1)));
    assert!(st.fr[1].eqv(Rat::new(2, 1)));
    // n = (r1 - r0) / dr
    assert!(st.n[0].eqv(Rat::new(3, 5)));
    assert!(st.n[1].eqv(Rat::new(4, 5)));
    // cx = -(fr . n) = -(3/5 + 8/5)
    assert!(st.curvature().eqv(Rat::new(-11, 5)));
}

#[test]
fn dimer_axis_is_the_normalized_difference() {
    let d = sample_dimer();
    let n = d.dimer_axis().unwrap();
    assert_eq!(n.len(), 2);
    assert!(n[0].eqv(Rat::new(3, 5)));
    assert!(n[1].eqv(Rat::new(4, 5)));
}

#[test]
fn curvature_derivative_along_the_rotation_direction() {
    let d = sample_dimer();
    let st = d.extrapolate().unwrap();
    // the rejection of fr against n is (-8/25, 6/25), of length 2/5; the
    // unit rotation direction is therefore (-4/5, 3/5)
    let theta = v(&[(-4, 5), (3, 5)]);
    let cd = st.curvature_derivative(&theta).unwrap();
    // -2 (fr . theta) = -2 (-4/5 + 6/5)
    assert!(cd.eqv(Rat::new(-4, 5)));
}

#[test]
fn accessors_return_the_stored_state() {
    let d = sample_dimer();
    let st = d.extrapolate().unwrap();
    let fr = st.rotational_force();
    assert!(fr[0].eqv(Rat::new(1, 1)));
    let mode = st.curvature_mode();
    assert!(mode[1].eqv(Rat::new(4, 5)));
}

#[test]
fn rejection_removes_the_axis_component() {
    let d = sample_dimer();
    let st = d.extrapolate().unwrap();
    let u = vector::reject(st.rotational_force(), st.curvature_mode()).unwrap();
    assert!(u[0].eqv(Rat::new(-8, 25)));
    assert!(u[1].eqv(Rat::new(6, 25)));
    // the rejection is orthogonal to the axis
    let z = vector::dot(&u, st.curvature_mode()).unwrap();
    assert!(z.eqv(Rat::zero()));
}

#[test]
fn endpoint_rotation_mixes_axis_and_direction() {
    let d = sample_dimer();
    let tau = v(&[(3, 5), (4, 5)]);
    let theta = v(&[(-4, 5), (3, 5)]);
    // rotate by an angle with (cos, sin) = (4/5, 3/5):
    // r0 + 5 (4/5) tau + 5 (3/5) theta = 4 tau + 3 theta = (0, 5)
    let r1p = d
        .get_endpoint1_after_rotation(&tau, &theta, Rat::new(4, 5), Rat::new(3, 5))
        .unwrap();
    assert!(r1p[0].eqv(Rat::zero()));
    assert!(r1p[1].eqv(Rat::new(5, 1)));
}

#[test]
fn stored_distance_is_checked_against_the_images() {
    let d = sample_dimer();
    assert_eq!(d.is_axis_consistent(), Some(true));
    let mut bad = sample_dimer();
    bad.dr = Rat::new(4, 1);
    assert_eq!(bad.is_axis_consistent(), Some(false));
}

#[test]
fn trial_rotation_moves_the_endpoint_and_fits_the_model() {
    let mut d = sample_dimer();
    // rotation direction and the trial angle pi/4, whose doubled angle has
    // sine one and cosine zero
    let theta = v(&[(-4, 5), (3, 5)]);
    let r1_prime = v(&[(0, 1), (5, 1)]);
    let f1_prime = v(&[(5, 1), (5, 1)]);
    let m = d
        .fourier_rotate(r1_prime, f1_prime, &theta, Rat::new(1, 1), Rat::new(0, 1))
        .unwrap();
    // the endpoint has moved
    assert!(d.r1[0].eqv(Rat::zero()));
    assert!(d.r1[1].eqv(Rat::new(5, 1)));
    assert!(d.f1[0].eqv(Rat::new(5, 1)));
    // before the move: c0 = -11/5 and c0d = -4/5; after it: c1 = -1
    assert!(m.c0.eqv(Rat::new(-11, 5)));
    assert!(m.b1.eqv(Rat::new(-2, 5)));
    assert!(m.a1.eqv(Rat::new(-8, 5)));
    assert!(m.a0.eqv(Rat::new(-6, 5)));
}

#[test]
fn degenerate_rotational_force_is_detected() {
    let d = sample_dimer();
    let st = d.extrapolate().unwrap();
    assert_eq!(st.has_degenerate_rotational_force(), Some(false));
    // equal endpoint and center forces leave no rotational force
    let mut flat = sample_dimer();
    flat.f1 = flat.f0.clone();
    let st2 = flat.extrapolate().unwrap();
    assert_eq!(st2.has_degenerate_rotational_force(), Some(true));
}

#[test]
fn dot_product_is_exact() {
    let a = v(&[(1, 2), (2, 3), (-1, 4)]);
    let b = v(&[(4, 1), (3, 2), (8, 1)]);
    let d = vector::dot(&a, &b).unwrap();
    // 2 + 1 - 2 = 1
    assert!(d.eqv(Rat::new(1, 1)));
}
