//! Raw dimer state and the finite-difference curvature estimator.
//!
//! A raw dimer is a center image and an endpoint image, each a position with
//! the force felt there, a fixed inter-image distance `dr` apart.  The
//! second-derivative information at the center — rotational force, axis,
//! curvature and curvature derivative — is recomputed from these stored
//! vectors on demand and never cached, so it can never go stale.

use vstd::prelude::*;

use crate::rat::{
    div_checked, double_checked, frac_div, frac_eq, frac_lt, frac_mul, frac_one, frac_zero,
    lemma_frac_div_mul_cancel, lemma_frac_div_wf, lemma_frac_eq_trans, lemma_frac_mul_assoc,
    lemma_frac_mul_cancel, lemma_frac_mul_comm, lemma_frac_mul_congr, lemma_frac_mul_one,
    lemma_frac_mul_zero, lemma_frac_ops_wf, lemma_frac_sqrt_unique, neg_checked, opt_frac, Frac,
    Rat,
};
use crate::rat::mul_checked;
use crate::vector::{
    add_vec, add_vec_checked, dot, dot_checked, dot_frac, lemma_dot_comm, lemma_dot_frac_wf,
    lemma_dot_scale_right, lemma_scale_checked_frac, lemma_scale_frac_wf,
    lemma_sub_vec_checked_frac, lemma_sub_vec_frac_wf, reject_frac, scale, scale_checked,
    scale_frac, seq_wf, sub_vec, sub_vec_checked, sub_vec_frac, views,
};

verus! {

/// Raw dimer: center image `0` and endpoint image `1`, with the inter-image
/// distance.
#[derive(Clone, Debug)]
pub struct RawDimer {
    /// Position of image 0 (the dimer center).
    pub r0: Vec<Rat>,
    /// Force at image 0.
    pub f0: Vec<Rat>,
    /// Position of image 1 (the endpoint).
    pub r1: Vec<Rat>,
    /// Force at image 1.
    pub f1: Vec<Rat>,
    /// Inter-image distance: the length of `r1 - r0` is kept equal to `dr`.
    pub dr: Rat,
}

/// The denoted triple of an optional rotation state, for relating the
/// executable estimator to its checked specification.
pub open spec fn opt_state(r: Option<RotationState>) -> Option<(Seq<Frac>, Seq<Frac>, Frac)> {
    match r {
        Some(st) => Some((views(st.fr@), views(st.n@), st.cx@)),
        None => None,
    }
}

/// Exact mirror of the executable curvature estimator: rotational force
/// `(f1 - f0) / dr`, axis `(r1 - r0) / dr` and curvature `-(fr . n)`, or
/// `None` when an intermediate quantity is not representable.
pub open spec fn extrapolate_checked(
    r0: Seq<Frac>,
    f0: Seq<Frac>,
    r1: Seq<Frac>,
    f1: Seq<Frac>,
    dr: Frac,
) -> Option<(Seq<Frac>, Seq<Frac>, Frac)> {
    match div_checked(frac_one(), dr) {
        None => None,
        Some(inv) => match sub_vec_checked(f1, f0) {
            None => None,
            Some(df) => match scale_checked(inv, df) {
                None => None,
                Some(fr) => match sub_vec_checked(r1, r0) {
                    None => None,
                    Some(dx) => match scale_checked(inv, dx) {
                        None => None,
                        Some(n) => match dot_checked(fr, n) {
                            None => None,
                            Some(d) => match neg_checked(d) {
                                None => None,
                                Some(cx) => Some((fr, n, cx)),
                            },
                        },
                    },
                },
            },
        },
    }
}

/// Exact mirror of the executable axis-consistency check: whether the
/// squared length of `r1 - r0` equals `dr * dr`, or `None` when an
/// intermediate quantity is not representable.
pub open spec fn axis_consistent_checked(r0: Seq<Frac>, r1: Seq<Frac>, dr: Frac) -> Option<bool> {
    match sub_vec_checked(r1, r0) {
        None => None,
        Some(dx) => match dot_checked(dx, dx) {
            None => None,
            Some(d) => match mul_checked(dr, dr) {
                None => None,
                Some(dd) => Some(frac_eq(d, dd)),
            },
        },
    }
}

/// Exact mirror of the executable degeneracy check on the rotational
/// force: whether its squared norm is zero, or `None` when an intermediate
/// quantity is not representable.
pub open spec fn degenerate_checked(fr: Seq<Frac>) -> Option<bool> {
    match dot_checked(fr, fr) {
        None => None,
        Some(d) => Some(frac_eq(d, frac_zero())),
    }
}

/// Exact mirror of the executable axis computation `(r1 - r0) / dr`.
pub open spec fn axis_checked(r0: Seq<Frac>, r1: Seq<Frac>, dr: Frac) -> Option<Seq<Frac>> {
    match div_checked(frac_one(), dr) {
        None => None,
        Some(inv) => match sub_vec_checked(r1, r0) {
            None => None,
            Some(dx) => scale_checked(inv, dx),
        },
    }
}

impl RawDimer {
    /// All four vectors share one dimension, every scalar denotes a rational
    /// number, and the inter-image distance is positive.
    pub open spec fn wf(self) -> bool {
        &&& self.r0@.len() == self.f0@.len()
        &&& self.r0@.len() == self.r1@.len()
        &&& self.r0@.len() == self.f1@.len()
        &&& seq_wf(views(self.r0@))
        &&& seq_wf(views(self.f0@))
        &&& seq_wf(views(self.r1@))
        &&& seq_wf(views(self.f1@))
        &&& self.dr.wf()
        &&& frac_lt(frac_zero(), self.dr@)
    }

    /// The stored distance is consistent with the stored images: the squared
    /// length of `r1 - r0` equals `dr * dr`.  This is the dimer's governing
    /// invariant — rotation moves the endpoint on the sphere of radius `dr`
    /// around the center.  [`Self::is_axis_consistent`] decides it, and
    /// under it the derived axis is exactly a unit vector
    /// ([`lemma_consistent_axis_is_unit`]).
    pub open spec fn axis_consistent(self) -> bool {
        frac_eq(
            dot_frac(
                sub_vec_frac(views(self.r1@), views(self.r0@)),
                sub_vec_frac(views(self.r1@), views(self.r0@)),
            ),
            frac_mul(self.dr@, self.dr@),
        )
    }

    /// Decide whether the stored distance is consistent with the stored
    /// images; `None` exactly when an intermediate quantity is not
    /// representable.
    pub fn is_axis_consistent(&self) -> (r: Option<bool>)
        requires
            self.wf(),
        ensures
            r == axis_consistent_checked(views(self.r0@), views(self.r1@), self.dr@),
            r matches Some(b) ==> b == self.axis_consistent(),
    {
        let dx = sub_vec(&self.r1, &self.r0)?;
        let d = dot(&dx, &dx)?;
        let dd = self.dr.mul(self.dr)?;
        proof {
            crate::vector::lemma_sub_vec_checked_frac(views(self.r1@), views(self.r0@));
            crate::vector::lemma_dot_checked_frac(views(dx@), views(dx@));
            assert(views(dx@) == sub_vec_frac(views(self.r1@), views(self.r0@)));
        }
        Some(d.eqv(dd))
    }

    /// Estimate second-derivative information at the dimer center by finite
    /// differencing; `None` exactly when an intermediate quantity is not
    /// representable.  The stored `dr` is the model's length scale: when
    /// [`Self::axis_consistent`] holds, the derived `n` is exactly a unit
    /// vector ([`lemma_consistent_axis_is_unit`]), so `cx` is the curvature
    /// along the axis.
    pub fn extrapolate(&self) -> (r: Option<RotationState>)
        requires
            self.wf(),
        ensures
            opt_state(r) == extrapolate_checked(
                views(self.r0@),
                views(self.f0@),
                views(self.r1@),
                views(self.f1@),
                self.dr@,
            ),
            r matches Some(st) ==> st.wf() && st.fr@.len() == self.r0@.len(),
    {
        let one = Rat::one();
        let inv = one.div(self.dr)?;
        let df = sub_vec(&self.f1, &self.f0)?;
        let fr = scale(inv, &df)?;
        let dx = sub_vec(&self.r1, &self.r0)?;
        let n = scale(inv, &dx)?;
        let d = dot(&fr, &n)?;
        let cx = d.neg()?;
        Some(RotationState { cx, fr, n })
    }

    /// The axis of the dimer, `(r1 - r0) / dr`; `None` exactly when a
    /// component is not representable.  It is a unit vector exactly when
    /// [`Self::axis_consistent`] holds ([`lemma_consistent_axis_is_unit`]).
    pub fn dimer_axis(&self) -> (r: Option<Vec<Rat>>)
        requires
            self.wf(),
        ensures
            crate::vector::opt_views(r) == axis_checked(
                views(self.r0@),
                views(self.r1@),
                self.dr@,
            ),
            r matches Some(x) ==> seq_wf(views(x@)) && x@.len() == self.r0@.len(),
    {
        let one = Rat::one();
        let inv = one.div(self.dr)?;
        let dx = sub_vec(&self.r1, &self.r0)?;
        scale(inv, &dx)
    }
}

/// Exact mirror of the executable endpoint rotation
/// `r0 + (dr cos(phi)) tau + (dr sin(phi)) theta`.
pub open spec fn endpoint_checked(
    r0: Seq<Frac>,
    tau: Seq<Frac>,
    theta: Seq<Frac>,
    dr: Frac,
    cos_phi: Frac,
    sin_phi: Frac,
) -> Option<Seq<Frac>> {
    match mul_checked(dr, cos_phi) {
        None => None,
        Some(a) => match mul_checked(dr, sin_phi) {
            None => None,
            Some(b) => match scale_checked(a, tau) {
                None => None,
                Some(pn) => match scale_checked(b, theta) {
                    None => None,
                    Some(pt) => match add_vec_checked(r0, pn) {
                        None => None,
                        Some(s1) => add_vec_checked(s1, pt),
                    },
                },
            },
        },
    }
}

impl RawDimer {
    /// Coordinates of the endpoint after rotating by the angle `phi` in the
    /// plane spanned by the axis `tau` and the rotation direction `theta`:
    /// `r0 + dr cos(phi) tau + dr sin(phi) theta`.  The caller supplies the
    /// cosine and sine of `phi`; `None` exactly when an intermediate
    /// quantity is not representable.
    pub fn get_endpoint1_after_rotation(
        &self,
        tau: &Vec<Rat>,
        theta: &Vec<Rat>,
        cos_phi: Rat,
        sin_phi: Rat,
    ) -> (r: Option<Vec<Rat>>)
        requires
            self.wf(),
            tau@.len() == self.r0@.len(),
            theta@.len() == self.r0@.len(),
            seq_wf(views(tau@)),
            seq_wf(views(theta@)),
            cos_phi.wf(),
            sin_phi.wf(),
        ensures
            crate::vector::opt_views(r) == endpoint_checked(
                views(self.r0@),
                views(tau@),
                views(theta@),
                self.dr@,
                cos_phi@,
                sin_phi@,
            ),
            r matches Some(x) ==> seq_wf(views(x@)) && x@.len() == self.r0@.len(),
    {
        let a = self.dr.mul(cos_phi)?;
        let b = self.dr.mul(sin_phi)?;
        let pn = scale(a, tau)?;
        let pt = scale(b, theta)?;
        let s1 = add_vec(&self.r0, &pn)?;
        add_vec(&s1, &pt)
    }
}

/// Where the stored distance is consistent with the stored images, the
/// derived axis is exactly a unit vector: its inner product with itself
/// denotes one.  This ties the [`RawDimer::axis_consistent`] invariant to
/// the reading of the estimator's outputs — under it, `n` is the unit
/// dimer axis and `cx = -(fr . n)` the curvature along it.
pub proof fn lemma_consistent_axis_is_unit(
    r0: Seq<Frac>,
    f0: Seq<Frac>,
    r1: Seq<Frac>,
    f1: Seq<Frac>,
    dr: Frac,
)
    requires
        r0.len() == r1.len(),
        seq_wf(r0),
        seq_wf(r1),
        dr.wf(),
        frac_lt(frac_zero(), dr),
        frac_eq(dot_frac(sub_vec_frac(r1, r0), sub_vec_frac(r1, r0)), frac_mul(dr, dr)),
    ensures
        axis_checked(r0, r1, dr) matches Some(n) ==> frac_eq(dot_frac(n, n), frac_one()),
        extrapolate_checked(r0, f0, r1, f1, dr) matches Some(st) ==> frac_eq(
            dot_frac(st.1, st.1),
            frac_one(),
        ),
{
    let one = frac_one();
    let inv = frac_div(one, dr);
    let dxf = sub_vec_frac(r1, r0);
    let uu = scale_frac(inv, dxf);
    let dd = dot_frac(dxf, dxf);
    let qq = frac_mul(dr, dr);
    lemma_frac_div_wf(one, dr);
    lemma_sub_vec_frac_wf(r1, r0);
    lemma_scale_frac_wf(inv, dxf);
    lemma_dot_frac_wf(dxf, dxf);
    // the squared length of the scaled difference is (1/dr)^2 (dr^2)
    lemma_square_scale_pulls_out(dxf, inv);
    lemma_frac_ops_wf(dr, dr);
    lemma_frac_ops_wf(inv, dd);
    lemma_frac_ops_wf(inv, qq);
    lemma_frac_mul_congr(inv, dd, inv, qq);
    lemma_frac_mul_congr(inv, frac_mul(inv, dd), inv, frac_mul(inv, qq));
    // (1/dr) (dr dr) collapses to dr
    lemma_frac_div_mul_cancel(one, dr);
    lemma_frac_mul_assoc(inv, dr, dr);
    lemma_frac_mul_congr(frac_mul(inv, dr), dr, one, dr);
    lemma_frac_mul_comm(one, dr);
    lemma_frac_mul_one(dr);
    lemma_frac_ops_wf(inv, dr);
    lemma_frac_ops_wf(frac_mul(inv, dr), dr);
    lemma_frac_ops_wf(one, dr);
    lemma_frac_ops_wf(dr, one);
    lemma_frac_eq_trans(frac_mul(inv, qq), frac_mul(frac_mul(inv, dr), dr), frac_mul(one, dr));
    lemma_frac_eq_trans(frac_mul(inv, qq), frac_mul(one, dr), frac_mul(dr, one));
    lemma_frac_eq_trans(frac_mul(inv, qq), frac_mul(dr, one), dr);
    // and a further (1/dr) collapses the whole product to one
    lemma_frac_mul_congr(inv, frac_mul(inv, qq), inv, dr);
    lemma_frac_eq_trans(frac_mul(inv, frac_mul(inv, qq)), frac_mul(inv, dr), one);
    lemma_frac_ops_wf(inv, frac_mul(inv, dd));
    lemma_frac_ops_wf(inv, frac_mul(inv, qq));
    lemma_frac_eq_trans(
        dot_frac(uu, uu),
        frac_mul(inv, frac_mul(inv, dd)),
        frac_mul(inv, frac_mul(inv, qq)),
    );
    lemma_frac_eq_trans(dot_frac(uu, uu), frac_mul(inv, frac_mul(inv, qq)), one);
    // whichever checked chain succeeded computed exactly that vector
    if axis_checked(r0, r1, dr) is Some {
        lemma_sub_vec_checked_frac(r1, r0);
        let dx = sub_vec_checked(r1, r0).unwrap();
        lemma_scale_checked_frac(inv, dx);
        assert(axis_checked(r0, r1, dr).unwrap() =~= uu);
    }
    if extrapolate_checked(r0, f0, r1, f1, dr) is Some {
        lemma_sub_vec_checked_frac(r1, r0);
        let dx = sub_vec_checked(r1, r0).unwrap();
        lemma_scale_checked_frac(inv, dx);
        assert(extrapolate_checked(r0, f0, r1, f1, dr).unwrap().1 =~= uu);
    }
}

/// Second-derivative information of the potential surface at the dimer
/// center, derived from a [`RawDimer`] by finite differencing.
#[derive(Clone, Debug)]
pub struct RotationState {
    /// Curvature along the dimer axis, `-(fr . n)`.
    pub cx: Rat,
    /// Rotational force `(f1 - f0) / dr`.
    pub fr: Vec<Rat>,
    /// Unit dimer axis `(r1 - r0) / dr`.
    pub n: Vec<Rat>,
}

/// Exact mirror of the executable curvature derivative `-2 (fr . theta)`.
pub open spec fn curvature_derivative_checked(fr: Seq<Frac>, theta: Seq<Frac>) -> Option<Frac> {
    match dot_checked(fr, theta) {
        None => None,
        Some(d) => match double_checked(d) {
            None => None,
            Some(d2) => neg_checked(d2),
        },
    }
}

impl RotationState {
    /// Every stored scalar denotes a rational number and the two vectors
    /// share one dimension.
    pub open spec fn wf(self) -> bool {
        &&& self.cx.wf()
        &&& seq_wf(views(self.fr@))
        &&& seq_wf(views(self.n@))
        &&& self.fr@.len() == self.n@.len()
    }

    /// The curvature along the dimer axis.
    pub fn curvature(&self) -> (r: Rat)
        ensures
            r == self.cx,
    {
        self.cx
    }

    /// The rotational force felt at the dimer center.
    pub fn rotational_force(&self) -> (r: &Vec<Rat>)
        ensures
            *r == self.fr,
    {
        &self.fr
    }

    /// The dimer axis direction, the current curvature mode.
    pub fn curvature_mode(&self) -> (r: &Vec<Rat>)
        ensures
            *r == self.n,
    {
        &self.n
    }

    /// Decide whether the rotational force vanishes.  A dimer without a
    /// rotational force cannot be oriented: callers must treat this as a
    /// fatal condition rather than rotate against it.  `None` exactly when
    /// an intermediate quantity is not representable.
    pub fn has_degenerate_rotational_force(&self) -> (r: Option<bool>)
        requires
            self.wf(),
        ensures
            r == degenerate_checked(views(self.fr@)),
            r matches Some(b) ==> b == frac_eq(
                dot_frac(views(self.fr@), views(self.fr@)),
                frac_zero(),
            ),
    {
        let d = dot(&self.fr, &self.fr)?;
        proof {
            crate::vector::lemma_dot_checked_frac(views(self.fr@), views(self.fr@));
        }
        let zero = Rat::zero();
        Some(d.eqv(zero))
    }

    /// The curvature derivative `-2 (fr . theta)` along a rotation direction
    /// `theta`; `None` exactly when an intermediate quantity is not
    /// representable.  The direction handed in must be the normalized
    /// rejection of the rotational force against the axis; by
    /// [`lemma_curvature_derivative_pure`] the value does not depend on which
    /// exact unit multiple is chosen.
    pub fn curvature_derivative(&self, theta: &Vec<Rat>) -> (r: Option<Rat>)
        requires
            self.wf(),
            theta@.len() == self.fr@.len(),
            seq_wf(views(theta@)),
        ensures
            opt_frac(r) == curvature_derivative_checked(views(self.fr@), views(theta@)),
            r matches Some(x) ==> x.wf(),
    {
        let d = dot(&self.fr, theta)?;
        let d2 = d.double()?;
        d2.neg()
    }
}

/// Purity of the curvature derivative: the inner product of the rotational
/// force with the rotation direction is determined by the rotational force
/// and the dimer axis alone.  Any two unit directions that are positive
/// multiples of the rejection of `fr` against `n` have the same inner
/// product with `fr`, so the curvature derivative `-2 (fr . theta)` is
/// reproducible from the inputs of the curvature computation, with no
/// hidden state.
pub proof fn lemma_curvature_derivative_pure(fr: Seq<Frac>, n: Seq<Frac>, k1: Frac, k2: Frac)
    requires
        fr.len() == n.len(),
        seq_wf(fr),
        seq_wf(n),
        k1.wf(),
        k2.wf(),
        frac_lt(frac_zero(), k1),
        frac_lt(frac_zero(), k2),
        frac_eq(
            dot_frac(
                scale_frac(k1, reject_frac(fr, n)),
                scale_frac(k1, reject_frac(fr, n)),
            ),
            frac_one(),
        ),
        frac_eq(
            dot_frac(
                scale_frac(k2, reject_frac(fr, n)),
                scale_frac(k2, reject_frac(fr, n)),
            ),
            frac_one(),
        ),
    ensures
        frac_eq(
            dot_frac(fr, scale_frac(k1, reject_frac(fr, n))),
            dot_frac(fr, scale_frac(k2, reject_frac(fr, n))),
        ),
{
    let u = reject_frac(fr, n);
    crate::vector::lemma_reject_frac_wf(fr, n);
    let d = dot_frac(u, u);
    lemma_dot_frac_wf(u, u);
    lemma_square_scale_pulls_out(u, k1);
    lemma_square_scale_pulls_out(u, k2);
    let s1 = frac_mul(k1, frac_mul(k1, d));
    let s2 = frac_mul(k2, frac_mul(k2, d));
    lemma_frac_ops_wf(k1, d);
    lemma_frac_ops_wf(k2, d);
    lemma_frac_ops_wf(k1, frac_mul(k1, d));
    lemma_frac_ops_wf(k2, frac_mul(k2, d));
    lemma_scale_frac_wf(k1, u);
    lemma_scale_frac_wf(k2, u);
    lemma_dot_frac_wf(scale_frac(k1, u), scale_frac(k1, u));
    lemma_dot_frac_wf(scale_frac(k2, u), scale_frac(k2, u));
    // the two unit conditions force the squares of the scales to agree
    lemma_frac_eq_trans(s1, dot_frac(scale_frac(k1, u), scale_frac(k1, u)), frac_one());
    lemma_frac_eq_trans(s2, dot_frac(scale_frac(k2, u), scale_frac(k2, u)), frac_one());
    lemma_frac_eq_trans(s1, frac_one(), s2);
    if d.n == 0 {
        // a zero rejection would make the unit condition impossible
        assert(frac_eq(d, frac_zero()));
        lemma_frac_mul_congr(k1, d, k1, frac_zero());
        lemma_frac_mul_zero(k1);
        lemma_frac_ops_wf(k1, frac_zero());
        lemma_frac_eq_trans(frac_mul(k1, d), frac_mul(k1, frac_zero()), frac_zero());
        lemma_frac_mul_congr(k1, frac_mul(k1, d), k1, frac_zero());
        lemma_frac_eq_trans(s1, frac_mul(k1, frac_zero()), frac_zero());
        lemma_frac_eq_trans(frac_one(), s1, frac_zero());
        assert(false);
    }
    lemma_frac_mul_assoc(k1, k1, d);
    lemma_frac_mul_assoc(k2, k2, d);
    lemma_frac_ops_wf(k1, k1);
    lemma_frac_ops_wf(k2, k2);
    lemma_frac_ops_wf(frac_mul(k1, k1), d);
    lemma_frac_ops_wf(frac_mul(k2, k2), d);
    lemma_frac_eq_trans(frac_mul(frac_mul(k1, k1), d), s1, s2);
    lemma_frac_eq_trans(
        frac_mul(frac_mul(k1, k1), d),
        s2,
        frac_mul(frac_mul(k2, k2), d),
    );
    lemma_frac_mul_cancel(frac_mul(k1, k1), frac_mul(k2, k2), d);
    lemma_frac_sqrt_unique(k1, k2);
    // pull the scales out of the inner products with the rotational force
    lemma_dot_scale_right(fr, k1, u);
    lemma_dot_scale_right(fr, k2, u);
    let dfu = dot_frac(fr, u);
    lemma_dot_frac_wf(fr, u);
    lemma_frac_mul_congr(k1, dfu, k2, dfu);
    lemma_frac_ops_wf(k1, dfu);
    lemma_frac_ops_wf(k2, dfu);
    lemma_frac_eq_trans(dot_frac(fr, scale_frac(k1, u)), frac_mul(k1, dfu), frac_mul(k2, dfu));
    lemma_frac_eq_trans(
        dot_frac(fr, scale_frac(k1, u)),
        frac_mul(k2, dfu),
        dot_frac(fr, scale_frac(k2, u)),
    );
}

/// The squared length of a scaled vector is the square of the scale times
/// the squared length.
proof fn lemma_square_scale_pulls_out(u: Seq<Frac>, k: Frac)
    requires
        seq_wf(u),
        k.wf(),
    ensures
        frac_eq(
            dot_frac(scale_frac(k, u), scale_frac(k, u)),
            frac_mul(k, frac_mul(k, dot_frac(u, u))),
        ),
{
    let su = scale_frac(k, u);
    lemma_scale_frac_wf(k, u);
    lemma_dot_scale_right(su, k, u);
    lemma_dot_comm(su, u);
    lemma_dot_scale_right(u, k, u);
    let d = dot_frac(u, u);
    lemma_dot_frac_wf(u, u);
    lemma_dot_frac_wf(u, su);
    lemma_dot_frac_wf(su, u);
    lemma_frac_eq_trans(dot_frac(su, u), dot_frac(u, su), frac_mul(k, d));
    lemma_frac_mul_congr(k, dot_frac(su, u), k, frac_mul(k, d));
    lemma_frac_ops_wf(k, dot_frac(su, u));
    lemma_frac_eq_trans(
        dot_frac(su, su),
        frac_mul(k, dot_frac(su, u)),
        frac_mul(k, frac_mul(k, d)),
    );
}

} // verus!
