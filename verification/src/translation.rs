//! Translation-step force transformation.
//!
//! Once the rotation loop has aligned the dimer axis with the lowest
//! curvature mode, the center is moved by an outer minimizer.  That
//! minimizer is handed an effective force derived from the real force at
//! the center: while the lowest curvature is still nonnegative (no negative
//! mode found) only the projection onto the mode is followed, reversed, to
//! push the walker out of the convex region; once the curvature is negative
//! the force component along the mode is inverted, which turns relaxation
//! into saddle-point climbing.

use vstd::prelude::*;

use crate::rat::{double_checked, frac_int, frac_le, frac_zero, Frac, Rat};
use crate::vector::{
    dot, dot_checked, opt_views, scale, scale_checked, seq_wf, sub_vec, sub_vec_checked, views,
};

verus! {

/// Exact mirror of the executable effective-force computation: writing `d`
/// for `f0 . t`, the result is `-(d t)` for a nonnegative curvature and
/// `f0 - (2 d) t` for a negative one, or `None` when an intermediate
/// quantity is not representable.
pub open spec fn translation_checked(f0: Seq<Frac>, t: Seq<Frac>, c_nonneg: bool) -> Option<
    Seq<Frac>,
> {
    match dot_checked(f0, t) {
        None => None,
        Some(d) => if c_nonneg {
            match scale_checked(d, t) {
                None => None,
                Some(p) => scale_checked(frac_int(-1), p),
            }
        } else {
            match double_checked(d) {
                None => None,
                Some(d2) => match scale_checked(d2, t) {
                    None => None,
                    Some(pp) => sub_vec_checked(f0, pp),
                },
            }
        },
    }
}

/// The effective force handed to the outer minimizer for the translation
/// step: `-project(f0, t_min)` when the optimized curvature `c_min` is
/// nonnegative, and `f0 - 2 project(f0, t_min)` when it is negative, where
/// `project(v, t) = (v . t) t`; `None` exactly when an intermediate
/// quantity is not representable.
pub fn next_translation_step(f0: &Vec<Rat>, t_min: &Vec<Rat>, c_min: Rat) -> (r: Option<Vec<Rat>>)
    requires
        f0@.len() == t_min@.len(),
        seq_wf(views(f0@)),
        seq_wf(views(t_min@)),
        c_min.wf(),
    ensures
        opt_views(r) == translation_checked(
            views(f0@),
            views(t_min@),
            frac_le(frac_zero(), c_min@),
        ),
        r matches Some(x) ==> seq_wf(views(x@)) && x@.len() == f0@.len(),
{
    let d = dot(f0, t_min)?;
    if c_min.is_nonneg() {
        let p = scale(d, t_min)?;
        let minus_one = Rat::from_int(-1);
        scale(minus_one, &p)
    } else {
        let d2 = d.double()?;
        let pp = scale(d2, t_min)?;
        sub_vec(f0, &pp)
    }
}

} // verus!
