//! Conjugate-gradient rotation-direction propagator.
//!
//! The rotation controller searches for the lowest-curvature direction in
//! the plane orthogonal to the dimer axis.  Instead of following the
//! rotational force directly (steepest descent), the propagator mixes in the
//! previous search direction weighted by a `beta` coefficient, restarting
//! (dropping the history) when conjugacy is lost.  The history lives only as
//! long as one rotation search: a fresh propagator is built for every outer
//! translation step.

use vstd::prelude::*;

use crate::rat::{
    div_checked, frac_int, frac_lt, frac_zero, mul_checked, neg_checked, opt_frac, Frac, Rat,
};
use crate::vector::{
    add_vec, add_vec_checked, dot, dot_checked, reject, reject_checked, scale, scale_checked,
    seq_wf, sub_vec, sub_vec_checked, views,
};

verus! {

/// Formula used for the conjugate-gradient `beta` coefficient.
#[derive(Clone, Copy, Debug, PartialEq, Eq, Structural)]
pub enum BetaKind {
    /// Polak-Ribiere.
    PR,
    /// Fletcher-Reeves.
    FR,
    /// Hestenes-Stiefel.
    HS,
    /// Dai-Yuan.
    DY,
}

/// Rule deciding when the conjugate-gradient history is dropped.
#[derive(Clone, Copy, Debug, PartialEq, Eq, Structural)]
pub enum RestartMethod {
    /// Restart when the current force has lost orthogonality to the
    /// previous one: `|f|^2 / (f . f_prev) >= 1/5`.
    Powell,
    /// Restart when `beta` is negative, by clamping it to zero.
    Negative,
}

/// History kept between propagations: the previous force and the previous
/// conjugate direction.
#[derive(Clone, Debug)]
pub struct ConjugateGradientState {
    /// The force of the previous step.
    pub forces: Vec<Rat>,
    /// The conjugate direction of the previous step.
    pub conjct: Vec<Rat>,
}

/// Conjugate-gradient direction propagator.
#[derive(Clone, Debug)]
pub struct ConjugateGradient {
    /// History of the previous step, absent before the first propagation.
    pub state: Option<ConjugateGradientState>,
    /// Formula for the `beta` coefficient.
    pub beta: BetaKind,
    /// Damping factor applied to `beta` for a smooth restart.
    pub beta_damping: Rat,
    /// Rule deciding when to restart.
    pub restart: RestartMethod,
}

/// Exact mirror of the executable `beta` computation.  The quotient is
/// `None` when its denominator is the exact zero or when an intermediate
/// quantity is not representable.
pub open spec fn beta_checked(kind: BetaKind, f: Seq<Frac>, fp: Seq<Frac>, cp: Seq<Frac>) -> Option<
    Frac,
> {
    match kind {
        BetaKind::PR => match sub_vec_checked(f, fp) {
            None => None,
            Some(d) => match dot_checked(f, d) {
                None => None,
                Some(num) => match dot_checked(fp, fp) {
                    None => None,
                    Some(den) => if den.n == 0 {
                        None
                    } else {
                        div_checked(num, den)
                    },
                },
            },
        },
        BetaKind::FR => match dot_checked(f, f) {
            None => None,
            Some(num) => match dot_checked(fp, fp) {
                None => None,
                Some(den) => if den.n == 0 {
                    None
                } else {
                    div_checked(num, den)
                },
            },
        },
        BetaKind::HS => match sub_vec_checked(f, fp) {
            None => None,
            Some(d) => match dot_checked(f, d) {
                None => None,
                Some(num) => match dot_checked(cp, d) {
                    None => None,
                    Some(den) => if den.n == 0 {
                        None
                    } else {
                        match div_checked(num, den) {
                            None => None,
                            Some(q) => neg_checked(q),
                        }
                    },
                },
            },
        },
        BetaKind::DY => match sub_vec_checked(f, fp) {
            None => None,
            Some(d) => match dot_checked(f, f) {
                None => None,
                Some(num) => match dot_checked(cp, d) {
                    None => None,
                    Some(den) => if den.n == 0 {
                        None
                    } else {
                        div_checked(num, den)
                    },
                },
            },
        },
    }
}

/// Exact mirror of the executable Powell loss-of-conjugacy test
/// `|f|^2 / (f . f_prev) >= 1/5`, decided without a division: for a positive
/// inner product the test compares `f . f_prev <= 5 |f|^2`; a zero inner
/// product counts as exceeded exactly when `|f|^2` is positive; a negative
/// inner product never restarts.
pub open spec fn powell_checked(nn: Frac, m: Frac) -> Option<bool> {
    if m.n > 0 {
        match mul_checked(frac_int(5), nn) {
            None => None,
            Some(t) => Some(!frac_lt(t, m)),
        }
    } else if m.n == 0 {
        Some(frac_lt(frac_zero(), nn))
    } else {
        Some(false)
    }
}

/// The `beta` retained after the restart rule is applied.
pub open spec fn restart_choice(restart: RestartMethod, beta: Frac, powell_exceeded: bool) -> Frac {
    match restart {
        RestartMethod::Negative => if frac_lt(beta, frac_zero()) {
            frac_zero()
        } else {
            beta
        },
        RestartMethod::Powell => if powell_exceeded {
            frac_zero()
        } else {
            beta
        },
    }
}

/// The Powell rule drops the history outright: whenever the configured
/// ratio threshold is exceeded, the retained `beta` is exactly zero.
pub proof fn lemma_powell_restart_zeroes_beta(beta: Frac, powell_exceeded: bool)
    requires
        powell_exceeded,
    ensures
        restart_choice(RestartMethod::Powell, beta, powell_exceeded) == frac_zero(),
{
}

/// The projection applied to inputs and outputs of the propagator: the
/// rejection against the dimer orientation when one is given, and the
/// identity otherwise.
pub open spec fn projected_checked(v: Seq<Frac>, tau: Option<Seq<Frac>>) -> Option<Seq<Frac>> {
    match tau {
        None => Some(v),
        Some(t) => reject_checked(v, t),
    }
}

/// Exact mirror of one whole propagation: the returned direction and the
/// stored history, or `None` when an intermediate quantity is not
/// representable (the history is then left untouched).
pub open spec fn propagate_checked(
    prev: Option<(Seq<Frac>, Seq<Frac>)>,
    kind: BetaKind,
    damping: Frac,
    restart: RestartMethod,
    forces: Seq<Frac>,
    tau: Option<Seq<Frac>>,
) -> Option<(Seq<Frac>, (Seq<Frac>, Seq<Frac>))> {
    match projected_checked(forces, tau) {
        None => None,
        Some(f) => match prev {
            None => Some((f, (f, f))),
            Some((fp, cp)) => match beta_checked(kind, f, fp, cp) {
                None => None,
                Some(beta) => match dot_checked(f, f) {
                    None => None,
                    Some(nn) => match dot_checked(f, fp) {
                        None => None,
                        Some(m) => match powell_checked(nn, m) {
                            None => None,
                            Some(ex) => match mul_checked(
                                damping,
                                restart_choice(restart, beta, ex),
                            ) {
                                None => None,
                                Some(damped) => match scale_checked(damped, cp) {
                                    None => None,
                                    Some(sc) => match add_vec_checked(f, sc) {
                                        None => None,
                                        Some(dirn) => match projected_checked(dirn, tau) {
                                            None => None,
                                            Some(out) => Some((out, (f, out))),
                                        },
                                    },
                                },
                            },
                        },
                    },
                },
            },
        },
    }
}

/// The `beta` coefficient for the configured formula; `None` when the
/// formula's denominator is the exact zero or an intermediate quantity is
/// not representable.
fn beta_update(kind: BetaKind, f: &Vec<Rat>, fp: &Vec<Rat>, cp: &Vec<Rat>) -> (r: Option<Rat>)
    requires
        f@.len() == fp@.len(),
        f@.len() == cp@.len(),
        seq_wf(views(f@)),
        seq_wf(views(fp@)),
        seq_wf(views(cp@)),
    ensures
        opt_frac(r) == beta_checked(kind, views(f@), views(fp@), views(cp@)),
        r matches Some(x) ==> x.wf(),
{
    match kind {
        BetaKind::PR => {
            let d = sub_vec(f, fp)?;
            let num = dot(f, &d)?;
            let den = dot(fp, fp)?;
            if den.num == 0 {
                None
            } else {
                num.div(den)
            }
        },
        BetaKind::FR => {
            let num = dot(f, f)?;
            let den = dot(fp, fp)?;
            if den.num == 0 {
                None
            } else {
                num.div(den)
            }
        },
        BetaKind::HS => {
            let d = sub_vec(f, fp)?;
            let num = dot(f, &d)?;
            let den = dot(cp, &d)?;
            if den.num == 0 {
                None
            } else {
                let q = num.div(den)?;
                q.neg()
            }
        },
        BetaKind::DY => {
            let d = sub_vec(f, fp)?;
            let num = dot(f, f)?;
            let den = dot(cp, &d)?;
            if den.num == 0 {
                None
            } else {
                num.div(den)
            }
        },
    }
}

/// The Powell loss-of-conjugacy test on `|f|^2` and `f . f_prev`.  Public
/// so that a driver holding the two inner products can consult the exact
/// decision directly.
pub fn powell_test(nn: Rat, m: Rat) -> (r: Option<bool>)
    requires
        nn.wf(),
        m.wf(),
    ensures
        r == powell_checked(nn@, m@),
{
    if m.num > 0 {
        let five = Rat::from_int(5);
        let t = five.mul(nn)?;
        Some(!t.lt(m))
    } else if m.num == 0 {
        let zero = Rat::zero();
        Some(zero.lt(nn))
    } else {
        Some(false)
    }
}

impl ConjugateGradient {
    /// The damping factor denotes a rational number, and any kept history
    /// has well-formed vectors of one shared dimension.
    pub open spec fn wf(self) -> bool {
        &&& self.beta_damping.wf()
        &&& match self.state {
            Some(st) => {
                &&& seq_wf(views(st.forces@))
                &&& seq_wf(views(st.conjct@))
                &&& st.forces@.len() == st.conjct@.len()
            },
            None => true,
        }
    }

    /// The history pair denoted by the current state.
    pub open spec fn state_views(self) -> Option<(Seq<Frac>, Seq<Frac>)> {
        match self.state {
            Some(st) => Some((views(st.forces@), views(st.conjct@))),
            None => None,
        }
    }

    /// A fresh propagator: no history, Polak-Ribiere `beta`, Powell restart
    /// and a damping factor of `4/5`.
    pub fn fresh() -> (r: ConjugateGradient)
        ensures
            r.wf(),
            r.is_fresh(),
    {
        ConjugateGradient {
            state: None,
            beta: BetaKind::PR,
            beta_damping: Rat::new(4, 5),
            restart: RestartMethod::Powell,
        }
    }

    /// The configuration of the fresh propagator, as [`Self::fresh`] builds
    /// it.
    pub open spec fn is_fresh(self) -> bool {
        &&& self.state is None
        &&& self.beta == BetaKind::PR
        &&& self.restart == RestartMethod::Powell
        &&& self.beta_damping@ == (Frac { n: 4, d: 5 })
    }

    /// A propagator configured from the user options: no history yet, and
    /// the options' `beta` formula, restart rule and damping factor.
    pub fn from_options(o: &crate::options::UserOptions) -> (r: ConjugateGradient)
        requires
            o.wf(),
        ensures
            r.wf(),
            r.state is None,
            r.beta == o.cg_beta_kind,
            r.restart == o.cg_restart_method,
            r.beta_damping == o.cg_beta_damping,
    {
        ConjugateGradient {
            state: None,
            beta: o.cg_beta_kind,
            restart: o.cg_restart_method,
            beta_damping: o.cg_beta_damping,
        }
    }

    /// Propagate without a reference axis: the direction is not projected.
    pub fn propagate(&mut self, forces: &Vec<Rat>) -> (r: Option<Vec<Rat>>)
        requires
            old(self).wf(),
            seq_wf(views(forces@)),
            old(self).state matches Some(st) ==> st.forces@.len() == forces@.len(),
        ensures
            final(self).wf(),
            final(self).beta == old(self).beta,
            final(self).beta_damping == old(self).beta_damping,
            final(self).restart == old(self).restart,
            match r {
                Some(dirn) => final(self).state is Some && propagate_checked(
                    old(self).state_views(),
                    old(self).beta,
                    old(self).beta_damping@,
                    old(self).restart,
                    views(forces@),
                    None,
                ) == Some((views(dirn@), final(self).state_views().unwrap())),
                None => propagate_checked(
                    old(self).state_views(),
                    old(self).beta,
                    old(self).beta_damping@,
                    old(self).restart,
                    views(forces@),
                    None,
                ) is None && *final(self) == *old(self),
            },
            r matches Some(dirn) ==> seq_wf(views(dirn@)),
    {
        self.propagate_dimer(forces, None)
    }

    /// Propagate toward a new conjugate direction.  With a dimer
    /// orientation given, both the input forces and the output direction are
    /// projected orthogonal to it, because the rotation search lives in the
    /// plane perpendicular to the axis.  On the first call the projected
    /// forces themselves are returned and stored as history.  On failure
    /// (`None`) the propagator is left untouched.
    pub fn propagate_dimer(&mut self, forces: &Vec<Rat>, dimer_orientation: Option<&Vec<Rat>>) -> (r:
        Option<Vec<Rat>>)
        requires
            old(self).wf(),
            seq_wf(views(forces@)),
            old(self).state matches Some(st) ==> st.forces@.len() == forces@.len(),
            dimer_orientation matches Some(t) ==> t@.len() == forces@.len() && seq_wf(views(t@)),
        ensures
            final(self).wf(),
            final(self).beta == old(self).beta,
            final(self).beta_damping == old(self).beta_damping,
            final(self).restart == old(self).restart,
            match r {
                Some(dirn) => final(self).state is Some && propagate_checked(
                    old(self).state_views(),
                    old(self).beta,
                    old(self).beta_damping@,
                    old(self).restart,
                    views(forces@),
                    match dimer_orientation {
                        Some(t) => Some(views(t@)),
                        None => None,
                    },
                ) == Some((views(dirn@), final(self).state_views().unwrap())),
                None => propagate_checked(
                    old(self).state_views(),
                    old(self).beta,
                    old(self).beta_damping@,
                    old(self).restart,
                    views(forces@),
                    match dimer_orientation {
                        Some(t) => Some(views(t@)),
                        None => None,
                    },
                ) is None && *final(self) == *old(self),
            },
            r matches Some(dirn) ==> seq_wf(views(dirn@)),
    {
        let f = match dimer_orientation {
            Some(t) => match reject(forces, t) {
                Some(x) => x,
                None => { return None },
            },
            None => forces.clone(),
        };
        match &self.state {
            None => {
                let out = f.clone();
                self.state = Some(ConjugateGradientState { forces: f, conjct: out.clone() });
                Some(out)
            },
            Some(prev) => {
                let beta = match beta_update(self.beta, &f, &prev.forces, &prev.conjct) {
                    Some(x) => x,
                    None => { return None },
                };
                let nn = match dot(&f, &f) {
                    Some(x) => x,
                    None => { return None },
                };
                let m = match dot(&f, &prev.forces) {
                    Some(x) => x,
                    None => { return None },
                };
                let ex = match powell_test(nn, m) {
                    Some(x) => x,
                    None => { return None },
                };
                let zero = Rat::zero();
                let chosen = match self.restart {
                    RestartMethod::Negative => if beta.lt(zero) {
                        zero
                    } else {
                        beta
                    },
                    RestartMethod::Powell => if ex {
                        zero
                    } else {
                        beta
                    },
                };
                let damped = match self.beta_damping.mul(chosen) {
                    Some(x) => x,
                    None => { return None },
                };
                let sc = match scale(damped, &prev.conjct) {
                    Some(x) => x,
                    None => { return None },
                };
                let dirn = match add_vec(&f, &sc) {
                    Some(x) => x,
                    None => { return None },
                };
                let out = match dimer_orientation {
                    Some(t) => match reject(&dirn, t) {
                        Some(x) => x,
                        None => { return None },
                    },
                    None => dirn,
                };
                self.state = Some(ConjugateGradientState { forces: f, conjct: out.clone() });
                Some(out)
            },
        }
    }
}

impl Default for BetaKind {
    /// Polak-Ribiere is the default `beta` formula.
    fn default() -> (r: BetaKind)
        ensures
            r == BetaKind::PR,
    {
        BetaKind::PR
    }
}

impl Default for RestartMethod {
    /// The Powell rule is the default restart method.
    fn default() -> (r: RestartMethod)
        ensures
            r == RestartMethod::Powell,
    {
        RestartMethod::Powell
    }
}

impl Default for ConjugateGradient {
    /// The documented default propagator: no history, Polak-Ribiere `beta`,
    /// Powell restart and a damping factor of `4/5`.
    fn default() -> (r: ConjugateGradient)
        ensures
            r.wf(),
            r.is_fresh(),
    {
        ConjugateGradient::fresh()
    }
}

} // verus!
