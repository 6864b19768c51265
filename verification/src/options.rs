//! User-tunable parameters of the dimer search.
//!
//! A flat set of numeric thresholds and feature switches consumed by the
//! rotation loop and the translation step.  The scalar options are exact
//! rationals; where a conventional default is an irrational angle, the
//! default stored here is a close rational approximation, noted on the
//! field.

use vstd::prelude::*;

use crate::cg::{BetaKind, RestartMethod};
use crate::rat::{frac_lt, frac_zero, Frac, Rat};

verus! {

/// Options for tuning the dimer algorithm from the user's side.
#[derive(Clone, Debug)]
pub struct UserOptions {
    /// Force-component threshold for the outer convergence test.
    pub fmax: Rat,
    /// Dimer distance between image 0 and image 1.
    pub distance: Rat,
    /// Trial angle for the finite-difference estimate of the rotational
    /// angle, in radians.
    pub trial_rot_angle: Rat,
    /// Use the configured trial angle unchanged instead of capping it by
    /// the estimated rotational angle.
    pub use_fixed_rot_angle: bool,
    /// Minimum rotational angle: below it the trial rotation is skipped.
    pub min_rot_angle: Rat,
    /// Maximum number of rotation steps in one rotation search.
    pub max_num_rot: usize,
    /// Maximum number of translation steps in one search.
    pub max_num_trans: usize,
    /// Use the extrapolated force on the rotated endpoint, saving one
    /// evaluation per rotation at the price of accuracy.
    pub use_extrapolated_force: bool,
    /// Choose the rotation plane by conjugate gradient instead of plain
    /// steepest descent.
    pub use_cg_rot: bool,
    /// Largest translation step the outer minimizer may take.
    pub max_translation_step: Rat,
    /// Formula for the conjugate-gradient `beta` coefficient.
    pub cg_beta_kind: BetaKind,
    /// Rule deciding when the conjugate-gradient history is dropped.
    pub cg_restart_method: RestartMethod,
    /// Damping factor applied to the conjugate-gradient `beta`.
    pub cg_beta_damping: Rat,
}

impl UserOptions {
    /// Every scalar option denotes a rational number, and the two length
    /// scales are positive.
    pub open spec fn wf(self) -> bool {
        &&& self.fmax.wf()
        &&& self.distance.wf()
        &&& self.trial_rot_angle.wf()
        &&& self.min_rot_angle.wf()
        &&& self.max_translation_step.wf()
        &&& self.cg_beta_damping.wf()
        &&& frac_lt(frac_zero(), self.distance@)
    }
}

impl Default for UserOptions {
    /// The documented defaults: a force threshold of `1/10`, a dimer
    /// distance of `1/1000`, a minimum rotation angle approximating five
    /// degrees in radians, a trial angle approximating an eighth of a turn
    /// (`pi/4`) in radians, a fixed trial angle, five rotation steps,
    /// fifty translation steps, no extrapolated forces, conjugate-gradient
    /// rotation directions with Polak-Ribiere `beta`, the Powell restart
    /// and a damping factor of `4/5`, and a translation step capped at
    /// `1/10`.
    fn default() -> (r: UserOptions)
        ensures
            r.wf(),
            r.fmax@ == (Frac { n: 1, d: 10 }),
            r.distance@ == (Frac { n: 1, d: 1000 }),
            r.min_rot_angle@ == (Frac { n: 87266462599716, d: 1000000000000000 }),
            r.trial_rot_angle@ == (Frac { n: 7853981633974483, d: 10000000000000000 }),
            r.use_fixed_rot_angle == true,
            r.max_num_rot == 5,
            r.max_num_trans == 50,
            r.use_extrapolated_force == false,
            r.use_cg_rot == true,
            r.max_translation_step@ == (Frac { n: 1, d: 10 }),
            r.cg_beta_kind == BetaKind::PR,
            r.cg_restart_method == RestartMethod::Powell,
            r.cg_beta_damping@ == (Frac { n: 4, d: 5 }),
    {
        UserOptions {
            fmax: Rat::new(1, 10),
            distance: Rat::new(1, 1000),
            min_rot_angle: Rat::new(87266462599716, 1000000000000000),
            trial_rot_angle: Rat::new(7853981633974483, 10000000000000000),
            use_fixed_rot_angle: true,
            max_num_rot: 5,
            max_num_trans: 50,
            use_extrapolated_force: false,
            use_cg_rot: true,
            max_translation_step: Rat::new(1, 10),
            cg_beta_kind: BetaKind::PR,
            cg_restart_method: RestartMethod::Powell,
            cg_beta_damping: Rat::new(4, 5),
        }
    }
}

} // verus!
