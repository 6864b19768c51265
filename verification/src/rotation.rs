//! Rotation-loop control decisions.
//!
//! One rotation search is an inner loop bounded by a configured iteration
//! count: estimate the rotational angle, stop when it is already small,
//! otherwise pick a trial angle and a rotation direction, spend one
//! evaluation at the trial position, fit the Fourier model and rotate to its
//! minimum.  The decisions of that loop are collected here as exact
//! functions of plain values, so the surrounding driver only performs the
//! evaluations and the trigonometry the decisions ask for.

use vstd::prelude::*;

use crate::rat::{frac_le, frac_lt, frac_neg, Frac, Rat};

verus! {

/// What the rotation loop does next.
#[derive(Clone, Copy, Debug, PartialEq, Eq, Structural)]
pub enum RotationDecision {
    /// The estimated rotational angle is already below the threshold: the
    /// axis is aligned well enough, stop rotating.
    Converged,
    /// The iteration budget is spent without convergence: stop rotating and
    /// keep the current axis.
    MaxIterReached,
    /// Perform one more trial rotation.
    Continue,
}

/// The rotation search converges when the magnitude of the estimated
/// rotational angle falls below the configured threshold.
pub fn check_dimer_rotation_convergence(phi_est: Rat, phi_tol: Rat) -> (r: bool)
    requires
        phi_est.wf(),
        phi_tol.wf(),
    ensures
        r == (frac_lt(phi_est@, phi_tol@) && frac_lt(frac_neg(phi_est@), phi_tol@)),
{
    phi_est.abs_lt(phi_tol)
}

/// Decide the next move of the rotation loop after `niter` completed
/// iterations out of a budget of `max_num_rot`.  Convergence wins over the
/// budget; the loop can never continue past the budget.
pub fn next_rotation_decision(converged: bool, niter: usize, max_num_rot: usize) -> (r:
    RotationDecision)
    ensures
        r == (if converged {
            RotationDecision::Converged
        } else if niter >= max_num_rot {
            RotationDecision::MaxIterReached
        } else {
            RotationDecision::Continue
        }),
        niter >= max_num_rot ==> r != RotationDecision::Continue,
{
    if converged {
        RotationDecision::Converged
    } else if niter >= max_num_rot {
        RotationDecision::MaxIterReached
    } else {
        RotationDecision::Continue
    }
}

/// The trial rotation angle: the configured angle when a fixed trial angle
/// is requested, and otherwise the smaller of the configured angle and the
/// estimated rotational angle.
pub fn choose_trial_angle(use_fixed: bool, trial_rot_angle: Rat, phi_est: Rat) -> (r: Rat)
    requires
        trial_rot_angle.wf(),
        phi_est.wf(),
    ensures
        r.wf(),
        r == (if use_fixed {
            trial_rot_angle
        } else if frac_le(trial_rot_angle@, phi_est@) {
            trial_rot_angle
        } else {
            phi_est
        }),
{
    if use_fixed {
        trial_rot_angle
    } else {
        trial_rot_angle.min(phi_est)
    }
}

} // verus!
