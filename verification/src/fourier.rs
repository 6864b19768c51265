//! Fourier model of curvature against rotation angle.
//!
//! Rotating the dimer endpoint by an angle `phi` inside the plane spanned by
//! the axis and the rotation direction changes the measured curvature like a
//! sinusoid in `2 phi`.  From the curvature `c0` and its derivative `c0d` at
//! angle zero and one further sample `c1` at a trial angle `phi1`, the model
//! `curvature(phi) = a0 / 2 + a1 cos(2 phi) + b1 sin(2 phi)` is determined
//! exactly: three unknowns, three constraints.  The module works on exact
//! scalars; the trigonometric values `sin(2 phi1)` and `cos(2 phi1)` are
//! supplied by the caller, and every identity proved here holds for whatever
//! values are supplied.

use vstd::prelude::*;

use crate::rat::{
    add_checked, div_checked, double_checked, frac_add, frac_div, frac_double, frac_eq, frac_half,
    frac_lt, frac_mul, frac_neg, frac_one, frac_sub, frac_zero, half_checked,
    lemma_frac_add_assoc, lemma_frac_add_congr, lemma_frac_add_lt_cancel, lemma_frac_add_neg,
    lemma_frac_add_zero, lemma_frac_div_mul_cancel, lemma_frac_div_wf, lemma_frac_eq_trans,
    lemma_frac_half_double, lemma_frac_le_one_sqrt, lemma_frac_mul_assoc, lemma_frac_mul_comm,
    lemma_frac_mul_congr, lemma_frac_mul_distrib_left, lemma_frac_mul_neg, lemma_frac_mul_one,
    lemma_frac_mul_zero, lemma_frac_ops_wf, lemma_frac_ord_congr, lemma_frac_part_le_one,
    lemma_frac_regroup, lemma_frac_sub_add_assoc, lemma_frac_sub_add_cancel, lemma_frac_sub_congr,
    lemma_frac_sub_lt_add, lemma_frac_sub_sub, mul_checked, opt_frac, sub_checked, Frac, Rat,
};
use crate::raw::{curvature_derivative_checked, extrapolate_checked, RawDimer};
use crate::vector::{
    add_vec, add_vec_checked, opt_views, scale, scale_checked, seq_wf, views,
};
use crate::DimerError;

verus! {

/// The fitted coefficient `b1 = c0d / 2`.
pub open spec fn fourier_b1(c0d: Frac) -> Frac {
    frac_half(c0d)
}

/// The numerator quantity `c0 - c1 + b1 sin(2 phi1)` of the `a1` fit.
pub open spec fn fourier_a1_top(c0: Frac, c0d: Frac, c1: Frac, s2: Frac) -> Frac {
    frac_add(frac_sub(c0, c1), frac_mul(fourier_b1(c0d), s2))
}

/// The fitted coefficient `a1 = (c0 - c1 + b1 sin(2 phi1)) / (1 - cos(2 phi1))`.
pub open spec fn fourier_a1(c0: Frac, c0d: Frac, c1: Frac, s2: Frac, c2: Frac) -> Frac {
    frac_div(fourier_a1_top(c0, c0d, c1, s2), frac_sub(frac_one(), c2))
}

/// The fitted coefficient `a0 = 2 (c0 - a1)`.
pub open spec fn fourier_a0(c0: Frac, c0d: Frac, c1: Frac, s2: Frac, c2: Frac) -> Frac {
    frac_double(frac_sub(c0, fourier_a1(c0, c0d, c1, s2, c2)))
}

/// The model curvature `a0 / 2 + a1 cos(2 phi) + b1 sin(2 phi)`, written over
/// the cosine and sine of the doubled angle.
pub open spec fn fourier_curvature(a0: Frac, a1: Frac, b1: Frac, cos2: Frac, sin2: Frac) -> Frac {
    frac_add(frac_add(frac_half(a0), frac_mul(a1, cos2)), frac_mul(b1, sin2))
}

/// Exact mirror of the executable fit: the coefficients `(a0, a1, b1)` when
/// every intermediate quantity is representable, and `None` otherwise.
pub open spec fn fit_checked(c0: Frac, c0d: Frac, c1: Frac, s2: Frac, c2: Frac) -> Option<
    (Frac, Frac, Frac),
> {
    match half_checked(c0d) {
        None => None,
        Some(b1) => match mul_checked(b1, s2) {
            None => None,
            Some(t1) => match sub_checked(c0, c1) {
                None => None,
                Some(t2) => match add_checked(t2, t1) {
                    None => None,
                    Some(t3) => match sub_checked(frac_one(), c2) {
                        None => None,
                        Some(t4) => match div_checked(t3, t4) {
                            None => None,
                            Some(a1) => match sub_checked(c0, a1) {
                                None => None,
                                Some(t5) => match double_checked(t5) {
                                    None => None,
                                    Some(a0) => Some((a0, a1, b1)),
                                },
                            },
                        },
                    },
                },
            },
        },
    }
}

/// Exact mirror of the executable curvature evaluation.
pub open spec fn curvature_checked(a0: Frac, a1: Frac, b1: Frac, cos2: Frac, sin2: Frac) -> Option<
    Frac,
> {
    match half_checked(a0) {
        None => None,
        Some(h) => match mul_checked(a1, cos2) {
            None => None,
            Some(u) => match mul_checked(b1, sin2) {
                None => None,
                Some(v) => match add_checked(h, u) {
                    None => None,
                    Some(w) => add_checked(w, v),
                },
            },
        },
    }
}

/// The fit admits a denominator: a trial angle away from multiples of pi
/// makes `1 - cos(2 phi1)` a nonzero quantity with a positive denominator,
/// and every fitted coefficient is then well formed.
pub proof fn lemma_fit_wf(c0: Frac, c0d: Frac, c1: Frac, s2: Frac, c2: Frac)
    requires
        c0.wf(),
        c0d.wf(),
        c1.wf(),
        s2.wf(),
        c2.wf(),
        !frac_eq(c2, frac_one()),
    ensures
        frac_sub(frac_one(), c2).n != 0,
        frac_sub(frac_one(), c2).wf(),
        fourier_b1(c0d).wf(),
        fourier_a1_top(c0, c0d, c1, s2).wf(),
        fourier_a1(c0, c0d, c1, s2, c2).wf(),
        fourier_a0(c0, c0d, c1, s2, c2).wf(),
{
    let b1 = fourier_b1(c0d);
    let t1 = frac_mul(b1, s2);
    let t2 = frac_sub(c0, c1);
    let t3 = fourier_a1_top(c0, c0d, c1, s2);
    let t4 = frac_sub(frac_one(), c2);
    lemma_frac_ops_wf(c0, c1);
    lemma_frac_ops_wf(b1, s2);
    lemma_frac_ops_wf(t2, t1);
    lemma_frac_ops_wf(frac_one(), c2);
    lemma_frac_div_wf(t3, t4);
    let a1 = fourier_a1(c0, c0d, c1, s2, c2);
    lemma_frac_ops_wf(c0, a1);
    lemma_frac_ops_wf(frac_sub(c0, a1), frac_sub(c0, a1));
}

/// Round-trip exactness of the closed-form fit, first constraint: the fitted
/// model reproduces the curvature at angle zero, where the doubled angle has
/// cosine one and sine zero.
pub proof fn lemma_fit_exact_at_zero(c0: Frac, c0d: Frac, c1: Frac, s2: Frac, c2: Frac)
    requires
        c0.wf(),
        c0d.wf(),
        c1.wf(),
        s2.wf(),
        c2.wf(),
        !frac_eq(c2, frac_one()),
    ensures
        frac_eq(
            fourier_curvature(
                fourier_a0(c0, c0d, c1, s2, c2),
                fourier_a1(c0, c0d, c1, s2, c2),
                fourier_b1(c0d),
                frac_one(),
                frac_zero(),
            ),
            c0,
        ),
{
    lemma_fit_wf(c0, c0d, c1, s2, c2);
    let b1 = fourier_b1(c0d);
    let a1 = fourier_a1(c0, c0d, c1, s2, c2);
    let t5 = frac_sub(c0, a1);
    let a0 = fourier_a0(c0, c0d, c1, s2, c2);
    let h = frac_half(a0);
    let inner = frac_add(h, frac_mul(a1, frac_one()));
    lemma_frac_ops_wf(c0, a1);
    lemma_frac_ops_wf(a0, a0);
    lemma_frac_ops_wf(a1, frac_one());
    lemma_frac_ops_wf(h, frac_mul(a1, frac_one()));
    lemma_frac_half_double(t5);
    lemma_frac_mul_one(a1);
    lemma_frac_add_congr(h, frac_mul(a1, frac_one()), t5, a1);
    lemma_frac_sub_add_cancel(c0, a1);
    lemma_frac_ops_wf(t5, a1);
    lemma_frac_eq_trans(inner, frac_add(t5, a1), c0);
    lemma_frac_mul_zero(b1);
    lemma_frac_add_congr(inner, frac_mul(b1, frac_zero()), c0, frac_zero());
    lemma_frac_add_zero(c0);
    lemma_frac_ops_wf(c0, frac_zero());
    lemma_frac_eq_trans(
        frac_add(inner, frac_mul(b1, frac_zero())),
        frac_add(c0, frac_zero()),
        c0,
    );
}

/// Round-trip exactness of the closed-form fit, second constraint: the fitted
/// model reproduces the sampled curvature at the trial angle, whose doubled
/// angle has cosine `c2` and sine `s2`.
pub proof fn lemma_fit_exact_at_trial(c0: Frac, c0d: Frac, c1: Frac, s2: Frac, c2: Frac)
    requires
        c0.wf(),
        c0d.wf(),
        c1.wf(),
        s2.wf(),
        c2.wf(),
        !frac_eq(c2, frac_one()),
    ensures
        frac_eq(
            fourier_curvature(
                fourier_a0(c0, c0d, c1, s2, c2),
                fourier_a1(c0, c0d, c1, s2, c2),
                fourier_b1(c0d),
                c2,
                s2,
            ),
            c1,
        ),
{
    lemma_fit_wf(c0, c0d, c1, s2, c2);
    let b1 = fourier_b1(c0d);
    let t1 = frac_mul(b1, s2);
    let t2 = frac_sub(c0, c1);
    let t3 = fourier_a1_top(c0, c0d, c1, s2);
    let t4 = frac_sub(frac_one(), c2);
    let a1 = fourier_a1(c0, c0d, c1, s2, c2);
    let t5 = frac_sub(c0, a1);
    let a0 = fourier_a0(c0, c0d, c1, s2, c2);
    let h = frac_half(a0);
    let cur = frac_add(frac_add(h, frac_mul(a1, c2)), t1);
    lemma_frac_ops_wf(a1, c2);
    lemma_frac_ops_wf(b1, s2);
    lemma_frac_ops_wf(c0, c1);
    lemma_frac_ops_wf(c0, a1);
    lemma_frac_ops_wf(a0, a0);
    lemma_frac_ops_wf(a1, t4);
    lemma_frac_ops_wf(t2, t1);
    // the constant half equals `c0 - a1`
    lemma_frac_half_double(t5);
    lemma_frac_add_congr(h, frac_mul(a1, c2), t5, frac_mul(a1, c2));
    // regroup `(c0 - a1) + a1 c2` into `c0 - a1 (1 - c2)`
    lemma_frac_regroup(c0, a1, c2);
    // the division cancels: `a1 (1 - c2)` equals the fit numerator
    lemma_frac_div_mul_cancel(t3, t4);
    lemma_frac_sub_congr(c0, frac_mul(a1, t4), c0, t3);
    // chain the three steps
    let ha = frac_add(h, frac_mul(a1, c2));
    let step_a = frac_add(t5, frac_mul(a1, c2));
    let step_b = frac_sub(c0, frac_mul(a1, t4));
    let step_c = frac_sub(c0, t3);
    lemma_frac_ops_wf(t5, frac_mul(a1, c2));
    lemma_frac_ops_wf(c0, frac_mul(a1, t4));
    lemma_frac_ops_wf(c0, t3);
    lemma_frac_eq_trans(ha, step_a, step_b);
    lemma_frac_eq_trans(ha, step_b, step_c);
    // push through the final addition of `b1 s2`
    lemma_frac_add_congr(ha, t1, step_c, t1);
    // unwind: `(c0 - ((c0 - c1) + b1 s2)) + b1 s2` equals `c1`
    let x = frac_sub(c0, t2);
    lemma_frac_ops_wf(c0, t2);
    lemma_frac_sub_add_assoc(c0, t2, t1);
    lemma_frac_add_congr(step_c, t1, frac_sub(x, t1), t1);
    lemma_frac_sub_add_cancel(x, t1);
    lemma_frac_sub_sub(c0, c1);
    lemma_frac_ops_wf(x, t1);
    lemma_frac_ops_wf(step_c, t1);
    lemma_frac_ops_wf(frac_sub(x, t1), t1);
    lemma_frac_eq_trans(cur, frac_add(step_c, t1), frac_add(frac_sub(x, t1), t1));
    lemma_frac_eq_trans(cur, frac_add(frac_sub(x, t1), t1), x);
    lemma_frac_eq_trans(cur, x, c1);
}

/// Exact mirror of the quantities a trial rotation feeds the fit: the
/// curvature and curvature derivative of the dimer before the rotation and
/// the curvature after the endpoint has moved, or `None` when an
/// intermediate quantity is not representable.
pub open spec fn rotate_quantities(
    r0: Seq<Frac>,
    f0: Seq<Frac>,
    r1_old: Seq<Frac>,
    f1_old: Seq<Frac>,
    dr: Frac,
    r1_new: Seq<Frac>,
    f1_new: Seq<Frac>,
    theta: Seq<Frac>,
) -> Option<(Frac, Frac, Frac)> {
    match extrapolate_checked(r0, f0, r1_old, f1_old, dr) {
        None => None,
        Some(st0) => match curvature_derivative_checked(st0.0, theta) {
            None => None,
            Some(cd) => match extrapolate_checked(r0, f0, r1_new, f1_new, dr) {
                None => None,
                Some(st1) => Some((st0.2, cd, st1.2)),
            },
        },
    }
}

impl RawDimer {
    /// Apply a trial rotation and fit the Fourier model: the endpoint moves
    /// to `r1_prime` with force `f1_prime`, and the model is fit from the
    /// curvature and curvature derivative before the move (the derivative
    /// along the rotation direction `theta`) together with the curvature
    /// after it.  The caller supplies the sine `s2` and cosine `c2` of the
    /// doubled trial angle.  The endpoint is moved whatever the outcome of
    /// the fit.
    pub fn fourier_rotate(
        &mut self,
        r1_prime: Vec<Rat>,
        f1_prime: Vec<Rat>,
        theta: &Vec<Rat>,
        s2: Rat,
        c2: Rat,
    ) -> (r: Result<FourierRotation, DimerError>)
        requires
            old(self).wf(),
            r1_prime@.len() == old(self).r0@.len(),
            f1_prime@.len() == old(self).r0@.len(),
            theta@.len() == old(self).r0@.len(),
            seq_wf(views(r1_prime@)),
            seq_wf(views(f1_prime@)),
            seq_wf(views(theta@)),
            s2.wf(),
            c2.wf(),
        ensures
            final(self).wf(),
            final(self).r0 == old(self).r0,
            final(self).f0 == old(self).f0,
            final(self).dr == old(self).dr,
            final(self).r1@ == r1_prime@,
            final(self).f1@ == f1_prime@,
            ({
                let q = rotate_quantities(
                    views(old(self).r0@),
                    views(old(self).f0@),
                    views(old(self).r1@),
                    views(old(self).f1@),
                    old(self).dr@,
                    views(r1_prime@),
                    views(f1_prime@),
                    views(theta@),
                );
                &&& (r matches Err(e) ==> (e == DimerError::InvalidTrialAngle || e
                    == DimerError::NumericOverflow))
                &&& ((r matches Err(e) && e == DimerError::InvalidTrialAngle) <==> (q is Some
                    && frac_eq(c2@, frac_one())))
                &&& ((r matches Err(e) && e == DimerError::NumericOverflow) <==> (q is None || (
                q matches Some(t) && !frac_eq(c2@, frac_one()) && fit_checked(
                    t.0,
                    t.1,
                    t.2,
                    s2@,
                    c2@,
                ) is None)))
                &&& (r matches Ok(m) ==> q matches Some(t) && {
                    &&& m.wf()
                    &&& m.c0@ == t.0
                    &&& m.b1@ == fourier_b1(t.1)
                    &&& m.a1@ == fourier_a1(t.0, t.1, t.2, s2@, c2@)
                    &&& m.a0@ == fourier_a0(t.0, t.1, t.2, s2@, c2@)
                })
            }),
    {
        let pre = self.extrapolate();
        let c0d_opt = match &pre {
            Some(st) => st.curvature_derivative(theta),
            None => None,
        };
        self.r1 = r1_prime;
        self.f1 = f1_prime;
        let post = self.extrapolate();
        match (pre, c0d_opt, post) {
            (Some(st0), Some(c0d), Some(st1)) => {
                FourierRotation::new(st0.curvature(), c0d, s2, c2, st1.curvature())
            },
            _ => Err(DimerError::NumericOverflow),
        }
    }
}

/// Correcting a fitted maximum can only lower the model curvature.  The
/// analytic rotation angle is a critical point of the fitted sinusoid: its
/// doubled angle has a positive cosine `cm` (as the arctangent returns) and
/// a sine `sm` satisfying the critical-point relation `cm b1 == sm a1`.
/// When the model curvature there exceeds `c0`, the critical point is a
/// maximum, and the curvature a quarter turn away — where the doubled angle
/// is negated — is strictly lower than the fitted value.
pub proof fn lemma_alternate_curvature_lower(
    a0: Frac,
    a1: Frac,
    b1: Frac,
    c0: Frac,
    cm: Frac,
    sm: Frac,
)
    requires
        a0.wf(),
        a1.wf(),
        b1.wf(),
        c0.wf(),
        cm.wf(),
        sm.wf(),
        frac_eq(fourier_curvature(a0, a1, b1, frac_one(), frac_zero()), c0),
        frac_lt(frac_zero(), cm),
        frac_eq(frac_add(frac_mul(cm, cm), frac_mul(sm, sm)), frac_one()),
        frac_eq(frac_mul(cm, b1), frac_mul(sm, a1)),
        frac_lt(c0, fourier_curvature(a0, a1, b1, cm, sm)),
    ensures
        frac_lt(
            fourier_curvature(a0, a1, b1, frac_neg(cm), frac_neg(sm)),
            fourier_curvature(a0, a1, b1, cm, sm),
        ),
{
    let h = frac_half(a0);
    let ka = frac_mul(a1, cm);
    let kb = frac_mul(b1, sm);
    let kk = frac_add(ka, kb);
    let naive = fourier_curvature(a0, a1, b1, cm, sm);
    let alt = fourier_curvature(a0, a1, b1, frac_neg(cm), frac_neg(sm));
    lemma_frac_ops_wf(a0, a0);
    lemma_frac_ops_wf(a1, cm);
    lemma_frac_ops_wf(b1, sm);
    lemma_frac_ops_wf(ka, kb);
    lemma_frac_ops_wf(h, ka);
    lemma_frac_ops_wf(frac_add(h, ka), kb);
    lemma_frac_ops_wf(h, kk);
    lemma_frac_ops_wf(frac_sub(h, ka), kb);
    // the fitted curvature regroups to `h + (a1 cm + b1 sm)`
    lemma_frac_add_assoc(h, ka, kb);
    // the alternate curvature is exactly `h - a1 cm - b1 sm`
    lemma_frac_mul_neg(a1, cm);
    lemma_frac_mul_neg(b1, sm);
    lemma_frac_add_neg(h, ka);
    lemma_frac_add_neg(frac_sub(h, ka), kb);
    assert(alt == frac_sub(frac_sub(h, ka), kb));
    lemma_frac_sub_add_assoc(h, ka, kb);
    // the model's value at angle zero shows `c0` equals `h + a1`
    let cur0 = fourier_curvature(a0, a1, b1, frac_one(), frac_zero());
    lemma_frac_mul_one(a1);
    lemma_frac_mul_zero(b1);
    lemma_frac_ops_wf(a1, frac_one());
    lemma_frac_ops_wf(b1, frac_zero());
    lemma_frac_ops_wf(h, frac_mul(a1, frac_one()));
    lemma_frac_ops_wf(h, a1);
    lemma_frac_ops_wf(frac_add(h, frac_mul(a1, frac_one())), frac_mul(b1, frac_zero()));
    lemma_frac_ops_wf(frac_add(h, a1), frac_zero());
    lemma_frac_add_congr(h, frac_mul(a1, frac_one()), h, a1);
    lemma_frac_add_congr(
        frac_add(h, frac_mul(a1, frac_one())),
        frac_mul(b1, frac_zero()),
        frac_add(h, a1),
        frac_zero(),
    );
    lemma_frac_add_zero(frac_add(h, a1));
    lemma_frac_eq_trans(cur0, frac_add(frac_add(h, a1), frac_zero()), frac_add(h, a1));
    lemma_frac_eq_trans(frac_add(h, a1), cur0, c0);
    // with `h` cancelled, the maximum condition says `a1 < a1 cm + b1 sm`
    lemma_frac_ord_congr(c0, naive, frac_add(h, a1), frac_add(h, kk));
    lemma_frac_add_lt_cancel(h, a1, kk);
    // the critical-point relation and the unit condition give
    // `(a1 cm + b1 sm) cm == a1`
    lemma_frac_mul_comm(kk, cm);
    lemma_frac_mul_distrib_left(cm, ka, kb);
    lemma_frac_mul_comm(cm, ka);
    lemma_frac_mul_assoc(a1, cm, cm);
    lemma_frac_ops_wf(cm, ka);
    lemma_frac_ops_wf(ka, cm);
    lemma_frac_ops_wf(cm, cm);
    lemma_frac_ops_wf(sm, sm);
    lemma_frac_ops_wf(a1, frac_mul(cm, cm));
    lemma_frac_eq_trans(frac_mul(cm, ka), frac_mul(ka, cm), frac_mul(a1, frac_mul(cm, cm)));
    lemma_frac_mul_assoc(cm, b1, sm);
    lemma_frac_mul_congr(frac_mul(cm, b1), sm, frac_mul(sm, a1), sm);
    lemma_frac_mul_comm(sm, a1);
    lemma_frac_mul_congr(frac_mul(sm, a1), sm, frac_mul(a1, sm), sm);
    lemma_frac_mul_assoc(a1, sm, sm);
    lemma_frac_ops_wf(cm, b1);
    lemma_frac_ops_wf(frac_mul(cm, b1), sm);
    lemma_frac_ops_wf(sm, a1);
    lemma_frac_ops_wf(frac_mul(sm, a1), sm);
    lemma_frac_ops_wf(a1, sm);
    lemma_frac_ops_wf(frac_mul(a1, sm), sm);
    lemma_frac_ops_wf(a1, frac_mul(sm, sm));
    lemma_frac_ops_wf(cm, kb);
    lemma_frac_eq_trans(
        frac_mul(cm, kb),
        frac_mul(frac_mul(cm, b1), sm),
        frac_mul(frac_mul(sm, a1), sm),
    );
    lemma_frac_eq_trans(
        frac_mul(cm, kb),
        frac_mul(frac_mul(sm, a1), sm),
        frac_mul(frac_mul(a1, sm), sm),
    );
    lemma_frac_eq_trans(
        frac_mul(cm, kb),
        frac_mul(frac_mul(a1, sm), sm),
        frac_mul(a1, frac_mul(sm, sm)),
    );
    lemma_frac_add_congr(
        frac_mul(cm, ka),
        frac_mul(cm, kb),
        frac_mul(a1, frac_mul(cm, cm)),
        frac_mul(a1, frac_mul(sm, sm)),
    );
    lemma_frac_mul_distrib_left(a1, frac_mul(cm, cm), frac_mul(sm, sm));
    lemma_frac_mul_congr(
        a1,
        frac_add(frac_mul(cm, cm), frac_mul(sm, sm)),
        a1,
        frac_one(),
    );
    lemma_frac_ops_wf(cm, kk);
    lemma_frac_ops_wf(frac_mul(cm, ka), frac_mul(cm, kb));
    lemma_frac_ops_wf(frac_mul(a1, frac_mul(cm, cm)), frac_mul(a1, frac_mul(sm, sm)));
    lemma_frac_ops_wf(frac_mul(cm, cm), frac_mul(sm, sm));
    lemma_frac_ops_wf(a1, frac_add(frac_mul(cm, cm), frac_mul(sm, sm)));
    lemma_frac_eq_trans(
        frac_mul(kk, cm),
        frac_mul(cm, kk),
        frac_add(frac_mul(cm, ka), frac_mul(cm, kb)),
    );
    lemma_frac_eq_trans(
        frac_mul(kk, cm),
        frac_add(frac_mul(cm, ka), frac_mul(cm, kb)),
        frac_add(frac_mul(a1, frac_mul(cm, cm)), frac_mul(a1, frac_mul(sm, sm))),
    );
    lemma_frac_eq_trans(
        frac_mul(kk, cm),
        frac_add(frac_mul(a1, frac_mul(cm, cm)), frac_mul(a1, frac_mul(sm, sm))),
        frac_mul(a1, frac_add(frac_mul(cm, cm), frac_mul(sm, sm))),
    );
    lemma_frac_ops_wf(a1, frac_one());
    lemma_frac_eq_trans(
        frac_mul(kk, cm),
        frac_mul(a1, frac_add(frac_mul(cm, cm), frac_mul(sm, sm))),
        frac_mul(a1, frac_one()),
    );
    lemma_frac_eq_trans(frac_mul(kk, cm), frac_mul(a1, frac_one()), a1);
    // `a1 cm + b1 sm` must be positive: otherwise, since `cm` is at most
    // one, multiplying by `cm` could not increase it up to `a1`
    if !frac_lt(frac_zero(), kk) {
        assert(sm.n * sm.n >= 0) by (nonlinear_arith);
        lemma_frac_part_le_one(frac_mul(cm, cm), frac_mul(sm, sm));
        lemma_frac_le_one_sqrt(cm);
        assert(kk.n * (kk.d * cm.d) <= (kk.n * cm.n) * kk.d) by (nonlinear_arith)
            requires
                kk.n <= 0,
                kk.d > 0,
                cm.d > 0,
                cm.n <= cm.d,
                cm.n > 0,
        ;
        lemma_frac_ops_wf(kk, cm);
        lemma_frac_ord_congr(kk, frac_mul(kk, cm), kk, a1);
        assert(false);
    }
    lemma_frac_sub_lt_add(h, kk);
    lemma_frac_ord_congr(frac_sub(h, kk), frac_add(h, kk), alt, naive);
}

/// Whether a trial angle is degenerate for the fit: its doubled angle has
/// cosine one, that is, the angle is a multiple of pi, where the fit's
/// denominator `1 - cos(2 phi1)` vanishes.
pub fn trial_angle_degenerate(c2: Rat) -> (r: bool)
    requires
        c2.wf(),
    ensures
        r == frac_eq(c2@, frac_one()),
{
    let one = Rat::one();
    c2.eqv(one)
}

/// Exact mirror of the executable extrapolated-force combination
/// `(a + c) f1 + b f1_prime`.
pub open spec fn extrapolated_force_checked(
    f1: Seq<Frac>,
    f1_prime: Seq<Frac>,
    a: Frac,
    b: Frac,
    c: Frac,
) -> Option<Seq<Frac>> {
    match add_checked(a, c) {
        None => None,
        Some(ac) => match scale_checked(ac, f1) {
            None => None,
            Some(s1) => match scale_checked(b, f1_prime) {
                None => None,
                Some(s2) => add_vec_checked(s1, s2),
            },
        },
    }
}

/// Extrapolated force on the endpoint after rotating to the fitted angle,
/// interpolated from the forces at angle zero and at the trial angle.  The
/// caller supplies the three trigonometric coefficients
/// `a = sin(phi1 - phi_min) / sin(phi1)`, `b = sin(phi_min) / sin(phi1)`
/// and `c = 1 - cos(phi_min) - sin(phi_min) tan(phi1 / 2)`; the result is
/// the combination `(a + c) f1 + b f1_prime`.  `None` exactly when an
/// intermediate quantity is not representable.
pub fn get_extrapolated_force(
    f1: &Vec<Rat>,
    f1_prime: &Vec<Rat>,
    a: Rat,
    b: Rat,
    c: Rat,
) -> (r: Option<Vec<Rat>>)
    requires
        f1@.len() == f1_prime@.len(),
        seq_wf(views(f1@)),
        seq_wf(views(f1_prime@)),
        a.wf(),
        b.wf(),
        c.wf(),
    ensures
        opt_views(r) == extrapolated_force_checked(views(f1@), views(f1_prime@), a@, b@, c@),
        r matches Some(x) ==> seq_wf(views(x@)) && x@.len() == f1@.len(),
{
    let ac = a.add(c)?;
    let s1 = scale(ac, f1)?;
    let s2 = scale(b, f1_prime)?;
    add_vec(&s1, &s2)
}

/// Fourier model of curvature against rotation angle, fit from one trial
/// rotation.
#[derive(Clone, Copy, Debug)]
pub struct FourierRotation {
    /// Constant coefficient (twice the mean curvature).
    pub a0: Rat,
    /// Cosine coefficient.
    pub a1: Rat,
    /// Sine coefficient.
    pub b1: Rat,
    /// Curvature at angle zero, kept for the disambiguation test.
    pub c0: Rat,
}

impl FourierRotation {
    /// All stored scalars denote rational numbers.
    pub open spec fn wf(self) -> bool {
        self.a0.wf() && self.a1.wf() && self.b1.wf() && self.c0.wf()
    }

    /// Fit the model from the curvature `c0` and curvature derivative `c0d`
    /// at angle zero and the curvature `c1` at the trial angle, whose doubled
    /// angle has sine `s2` and cosine `c2`.  A trial angle that is a multiple
    /// of pi (`cos(2 phi1) == 1`) admits no fit and is rejected.
    pub fn new(c0: Rat, c0d: Rat, s2: Rat, c2: Rat, c1: Rat) -> (r: Result<
        FourierRotation,
        DimerError,
    >)
        requires
            c0.wf(),
            c0d.wf(),
            s2.wf(),
            c2.wf(),
            c1.wf(),
        ensures
            r matches Err(e) ==> (e == DimerError::InvalidTrialAngle || e
                == DimerError::NumericOverflow),
            (r matches Err(e) && e == DimerError::InvalidTrialAngle) <==> frac_eq(c2@, frac_one()),
            (r matches Err(e) && e == DimerError::NumericOverflow) <==> (!frac_eq(c2@, frac_one())
                && fit_checked(c0@, c0d@, c1@, s2@, c2@) is None),
            r matches Ok(m) ==> {
                &&& m.wf()
                &&& m.c0 == c0
                &&& m.b1@ == fourier_b1(c0d@)
                &&& m.a1@ == fourier_a1(c0@, c0d@, c1@, s2@, c2@)
                &&& m.a0@ == fourier_a0(c0@, c0d@, c1@, s2@, c2@)
            },
    {
        let one = Rat::one();
        if trial_angle_degenerate(c2) {
            return Err(DimerError::InvalidTrialAngle);
        }
        let b1 = match c0d.half() {
            Some(x) => x,
            None => { return Err(DimerError::NumericOverflow) },
        };
        let t1 = match b1.mul(s2) {
            Some(x) => x,
            None => { return Err(DimerError::NumericOverflow) },
        };
        let t2 = match c0.sub(c1) {
            Some(x) => x,
            None => { return Err(DimerError::NumericOverflow) },
        };
        let t3 = match t2.add(t1) {
            Some(x) => x,
            None => { return Err(DimerError::NumericOverflow) },
        };
        let t4 = match one.sub(c2) {
            Some(x) => x,
            None => { return Err(DimerError::NumericOverflow) },
        };
        let a1 = match t3.div(t4) {
            Some(x) => x,
            None => { return Err(DimerError::NumericOverflow) },
        };
        let t5 = match c0.sub(a1) {
            Some(x) => x,
            None => { return Err(DimerError::NumericOverflow) },
        };
        let a0 = match t5.double() {
            Some(x) => x,
            None => { return Err(DimerError::NumericOverflow) },
        };
        Ok(FourierRotation { a0, a1, b1, c0 })
    }

    /// Whether the fitted rotation angle is corrected by a quarter turn.
    ///
    /// The analytic angle is found modulo a half turn, so the fitted
    /// extremum may be a curvature maximum.  When the curvature at the
    /// fitted angle exceeds `c0`, the true minimum lies a quarter turn away.
    /// With curvatures measured from re-evaluated forces the correction is
    /// adopted unconditionally; with curvatures from extrapolated forces it
    /// is adopted only when the alternate curvature undercuts both `c0` and
    /// the fitted value, because extrapolated data is too noisy to assert
    /// the correction otherwise.
    pub open spec fn adopts_alternate(
        c0: Frac,
        naive: Frac,
        alternate: Frac,
        extrapolated: bool,
    ) -> bool {
        frac_lt(c0, naive) && (!extrapolated || (frac_lt(alternate, c0) && frac_lt(
            alternate,
            naive,
        )))
    }

    /// Resolve the fitted rotation: decide between the fitted angle's
    /// curvature `naive` and the quarter-turn alternate's curvature
    /// `alternate`, returning whether the alternate was adopted and the
    /// curvature retained.
    pub fn resolve_rotation(c0: Rat, naive: Rat, alternate: Rat, extrapolated: bool) -> (r: (
        bool,
        Rat,
    ))
        requires
            c0.wf(),
            naive.wf(),
            alternate.wf(),
        ensures
            r.0 == Self::adopts_alternate(c0@, naive@, alternate@, extrapolated),
            r.1 == (if r.0 {
                alternate
            } else {
                naive
            }),
            r.1.wf(),
    {
        if c0.lt(naive) {
            if !extrapolated {
                (true, alternate)
            } else if alternate.lt(c0) && alternate.lt(naive) {
                (true, alternate)
            } else {
                (false, naive)
            }
        } else {
            (false, naive)
        }
    }
}

/// With curvatures from re-evaluated forces, a fitted angle that turned out
/// to be a maximum is always corrected: whenever the fitted curvature
/// exceeds `c0`, the quarter-turn alternate is adopted.
pub proof fn lemma_true_forces_always_correct(c0: Frac, naive: Frac, alternate: Frac)
    requires
        frac_lt(c0, naive),
    ensures
        FourierRotation::adopts_alternate(c0, naive, alternate, false),
{
}

impl FourierRotation {
    /// The model curvature at an angle whose doubled angle has cosine `cos2`
    /// and sine `sin2`; `None` exactly when an intermediate quantity is not
    /// representable.
    pub fn curvature(&self, cos2: Rat, sin2: Rat) -> (r: Option<Rat>)
        requires
            self.wf(),
            cos2.wf(),
            sin2.wf(),
        ensures
            opt_frac(r) == curvature_checked(self.a0@, self.a1@, self.b1@, cos2@, sin2@),
            r matches Some(x) ==> x.wf(),
    {
        let h = self.a0.half()?;
        let u = self.a1.mul(cos2)?;
        let v = self.b1.mul(sin2)?;
        let w = h.add(u)?;
        w.add(v)
    }
}

} // verus!
