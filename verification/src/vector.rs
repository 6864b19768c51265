//! Exact rational coordinate vectors.
//!
//! Positions, forces and directions are vectors of exact scalars.  Each
//! executable operation mirrors a specification-level "checked" function
//! exactly: the operation returns the exact componentwise or inner-product
//! result, or `None` precisely when some intermediate quantity leaves the
//! representable range.  The ideal (unbounded) inner product `dot_frac` is
//! what the laws of the dimer core are stated over.

use vstd::prelude::*;

use crate::rat::{
    add_checked, frac_add, frac_eq, frac_mul, frac_one, frac_sub, frac_zero,
    lemma_frac_add_congr, lemma_frac_add_sub_exchange, lemma_frac_eq_trans, lemma_frac_mul_assoc,
    lemma_frac_mul_comm, lemma_frac_mul_congr, lemma_frac_mul_distrib_left,
    lemma_frac_mul_distrib_sub_right, lemma_frac_mul_one, lemma_frac_mul_zero, lemma_frac_ops_wf,
    lemma_frac_sub_congr, mul_checked, opt_frac, sub_checked, Frac, Rat,
};

verus! {

/// The denoted fractions of a sequence of scalars.
pub open spec fn views(s: Seq<Rat>) -> Seq<Frac> {
    s.map_values(|r: Rat| r@)
}

/// Every fraction of the sequence has a positive denominator.
pub open spec fn seq_wf(s: Seq<Frac>) -> bool {
    forall|i: int| 0 <= i < s.len() ==> s[i].wf()
}

/// The denoted fractions of an optional vector of scalars.
pub open spec fn opt_views(r: Option<Vec<Rat>>) -> Option<Seq<Frac>> {
    match r {
        Some(v) => Some(views(v@)),
        None => None,
    }
}

/// Ideal inner product of two fraction sequences of equal length.
pub open spec fn dot_frac(a: Seq<Frac>, b: Seq<Frac>) -> Frac
    decreases a.len(),
{
    if a.len() == 0 {
        frac_zero()
    } else {
        frac_add(dot_frac(a.drop_last(), b.drop_last()), frac_mul(a.last(), b.last()))
    }
}

/// Exact mirror of the executable inner product: the ideal value when every
/// intermediate quantity is representable, and `None` otherwise.
pub open spec fn dot_checked(a: Seq<Frac>, b: Seq<Frac>) -> Option<Frac>
    decreases a.len(),
{
    if a.len() == 0 {
        Some(frac_zero())
    } else {
        match dot_checked(a.drop_last(), b.drop_last()) {
            None => None,
            Some(acc) => match mul_checked(a.last(), b.last()) {
                None => None,
                Some(p) => add_checked(acc, p),
            },
        }
    }
}

/// Ideal componentwise scaling of a fraction sequence.
pub open spec fn scale_frac(k: Frac, s: Seq<Frac>) -> Seq<Frac> {
    s.map_values(|x: Frac| frac_mul(k, x))
}

/// Exact mirror of the executable scaling.
pub open spec fn scale_checked(k: Frac, s: Seq<Frac>) -> Option<Seq<Frac>>
    decreases s.len(),
{
    if s.len() == 0 {
        Some(Seq::empty())
    } else {
        match scale_checked(k, s.drop_last()) {
            None => None,
            Some(t) => match mul_checked(k, s.last()) {
                None => None,
                Some(p) => Some(t.push(p)),
            },
        }
    }
}

/// Exact mirror of the executable componentwise difference.
pub open spec fn sub_vec_checked(a: Seq<Frac>, b: Seq<Frac>) -> Option<Seq<Frac>>
    decreases a.len(),
{
    if a.len() == 0 {
        Some(Seq::empty())
    } else {
        match sub_vec_checked(a.drop_last(), b.drop_last()) {
            None => None,
            Some(t) => match sub_checked(a.last(), b.last()) {
                None => None,
                Some(p) => Some(t.push(p)),
            },
        }
    }
}

/// Exact mirror of the executable componentwise sum.
pub open spec fn add_vec_checked(a: Seq<Frac>, b: Seq<Frac>) -> Option<Seq<Frac>>
    decreases a.len(),
{
    if a.len() == 0 {
        Some(Seq::empty())
    } else {
        match add_vec_checked(a.drop_last(), b.drop_last()) {
            None => None,
            Some(t) => match add_checked(a.last(), b.last()) {
                None => None,
                Some(p) => Some(t.push(p)),
            },
        }
    }
}

/// Inner product over the first `n` components.
fn dot_prefix(a: &Vec<Rat>, b: &Vec<Rat>, n: usize) -> (r: Option<Rat>)
    requires
        n <= a@.len(),
        n <= b@.len(),
        seq_wf(views(a@)),
        seq_wf(views(b@)),
    ensures
        opt_frac(r) == dot_checked(views(a@).subrange(0, n as int), views(b@).subrange(0, n as int)),
        r matches Some(x) ==> x.wf(),
    decreases n,
{
    if n == 0 {
        assert(views(a@).subrange(0, 0) =~= Seq::empty());
        Some(Rat::zero())
    } else {
        proof {
            let sa = views(a@).subrange(0, n as int);
            let sb = views(b@).subrange(0, n as int);
            assert(sa.drop_last() =~= views(a@).subrange(0, n - 1 as int));
            assert(sb.drop_last() =~= views(b@).subrange(0, n - 1 as int));
            assert(sa.last() == a@[n - 1]@);
            assert(sb.last() == b@[n - 1]@);
        }
        let acc = dot_prefix(a, b, n - 1)?;
        let p = a[n - 1].mul(b[n - 1])?;
        acc.add(p)
    }
}

/// Inner product of two vectors of equal dimension; `None` exactly when an
/// intermediate quantity is not representable.
pub fn dot(a: &Vec<Rat>, b: &Vec<Rat>) -> (r: Option<Rat>)
    requires
        a@.len() == b@.len(),
        seq_wf(views(a@)),
        seq_wf(views(b@)),
    ensures
        opt_frac(r) == dot_checked(views(a@), views(b@)),
        r matches Some(x) ==> x.wf(),
{
    let n = a.len();
    let r = dot_prefix(a, b, n);
    proof {
        assert(views(a@).subrange(0, n as int) =~= views(a@));
        assert(views(b@).subrange(0, n as int) =~= views(b@));
    }
    r
}

/// Componentwise scaling over the first `n` components.
fn scale_prefix(k: Rat, v: &Vec<Rat>, n: usize) -> (r: Option<Vec<Rat>>)
    requires
        n <= v@.len(),
        k.wf(),
        seq_wf(views(v@)),
    ensures
        opt_views(r) == scale_checked(k@, views(v@).subrange(0, n as int)),
        r matches Some(x) ==> seq_wf(views(x@)),
    decreases n,
{
    if n == 0 {
        assert(views(v@).subrange(0, 0) =~= Seq::<Frac>::empty());
        let out: Vec<Rat> = Vec::new();
        assert(views(out@) =~= Seq::<Frac>::empty());
        Some(out)
    } else {
        proof {
            let s = views(v@).subrange(0, n as int);
            assert(s.drop_last() =~= views(v@).subrange(0, n - 1 as int));
            assert(s.last() == v@[n - 1]@);
        }
        let mut t = scale_prefix(k, v, n - 1)?;
        let p = k.mul(v[n - 1])?;
        t.push(p);
        proof {
            let s = views(v@).subrange(0, n as int);
            assert(views(t@) =~= scale_checked(k@, s).unwrap());
        }
        Some(t)
    }
}

/// The vector `k * v`; `None` exactly when a component is not representable.
pub fn scale(k: Rat, v: &Vec<Rat>) -> (r: Option<Vec<Rat>>)
    requires
        k.wf(),
        seq_wf(views(v@)),
    ensures
        opt_views(r) == scale_checked(k@, views(v@)),
        r matches Some(x) ==> seq_wf(views(x@)) && x@.len() == v@.len(),
    {
    let n = v.len();
    let r = scale_prefix(k, v, n);
    proof {
        assert(views(v@).subrange(0, n as int) =~= views(v@));
        if r is Some {
            lemma_scale_checked_len(k@, views(v@));
        }
    }
    r
}

/// Componentwise difference over the first `n` components.
fn sub_vec_prefix(a: &Vec<Rat>, b: &Vec<Rat>, n: usize) -> (r: Option<Vec<Rat>>)
    requires
        n <= a@.len(),
        n <= b@.len(),
        seq_wf(views(a@)),
        seq_wf(views(b@)),
    ensures
        opt_views(r) == sub_vec_checked(
            views(a@).subrange(0, n as int),
            views(b@).subrange(0, n as int),
        ),
        r matches Some(x) ==> seq_wf(views(x@)),
    decreases n,
{
    if n == 0 {
        assert(views(a@).subrange(0, 0) =~= Seq::<Frac>::empty());
        let out: Vec<Rat> = Vec::new();
        assert(views(out@) =~= Seq::<Frac>::empty());
        Some(out)
    } else {
        proof {
            let sa = views(a@).subrange(0, n as int);
            let sb = views(b@).subrange(0, n as int);
            assert(sa.drop_last() =~= views(a@).subrange(0, n - 1 as int));
            assert(sb.drop_last() =~= views(b@).subrange(0, n - 1 as int));
            assert(sa.last() == a@[n - 1]@);
            assert(sb.last() == b@[n - 1]@);
        }
        let mut t = sub_vec_prefix(a, b, n - 1)?;
        let p = a[n - 1].sub(b[n - 1])?;
        t.push(p);
        proof {
            let sa = views(a@).subrange(0, n as int);
            let sb = views(b@).subrange(0, n as int);
            assert(views(t@) =~= sub_vec_checked(sa, sb).unwrap());
        }
        Some(t)
    }
}

/// The vector `a - b`; `None` exactly when a component is not representable.
pub fn sub_vec(a: &Vec<Rat>, b: &Vec<Rat>) -> (r: Option<Vec<Rat>>)
    requires
        a@.len() == b@.len(),
        seq_wf(views(a@)),
        seq_wf(views(b@)),
    ensures
        opt_views(r) == sub_vec_checked(views(a@), views(b@)),
        r matches Some(x) ==> seq_wf(views(x@)) && x@.len() == a@.len(),
{
    let n = a.len();
    let r = sub_vec_prefix(a, b, n);
    proof {
        assert(views(a@).subrange(0, n as int) =~= views(a@));
        assert(views(b@).subrange(0, n as int) =~= views(b@));
        if r is Some {
            lemma_sub_vec_checked_len(views(a@), views(b@));
        }
    }
    r
}

/// Componentwise sum over the first `n` components.
fn add_vec_prefix(a: &Vec<Rat>, b: &Vec<Rat>, n: usize) -> (r: Option<Vec<Rat>>)
    requires
        n <= a@.len(),
        n <= b@.len(),
        seq_wf(views(a@)),
        seq_wf(views(b@)),
    ensures
        opt_views(r) == add_vec_checked(
            views(a@).subrange(0, n as int),
            views(b@).subrange(0, n as int),
        ),
        r matches Some(x) ==> seq_wf(views(x@)),
    decreases n,
{
    if n == 0 {
        assert(views(a@).subrange(0, 0) =~= Seq::<Frac>::empty());
        let out: Vec<Rat> = Vec::new();
        assert(views(out@) =~= Seq::<Frac>::empty());
        Some(out)
    } else {
        proof {
            let sa = views(a@).subrange(0, n as int);
            let sb = views(b@).subrange(0, n as int);
            assert(sa.drop_last() =~= views(a@).subrange(0, n - 1 as int));
            assert(sb.drop_last() =~= views(b@).subrange(0, n - 1 as int));
            assert(sa.last() == a@[n - 1]@);
            assert(sb.last() == b@[n - 1]@);
        }
        let mut t = add_vec_prefix(a, b, n - 1)?;
        let p = a[n - 1].add(b[n - 1])?;
        t.push(p);
        proof {
            let sa = views(a@).subrange(0, n as int);
            let sb = views(b@).subrange(0, n as int);
            assert(views(t@) =~= add_vec_checked(sa, sb).unwrap());
        }
        Some(t)
    }
}

/// The vector `a + b`; `None` exactly when a component is not representable.
pub fn add_vec(a: &Vec<Rat>, b: &Vec<Rat>) -> (r: Option<Vec<Rat>>)
    requires
        a@.len() == b@.len(),
        seq_wf(views(a@)),
        seq_wf(views(b@)),
    ensures
        opt_views(r) == add_vec_checked(views(a@), views(b@)),
        r matches Some(x) ==> seq_wf(views(x@)) && x@.len() == a@.len(),
{
    let n = a.len();
    let r = add_vec_prefix(a, b, n);
    proof {
        assert(views(a@).subrange(0, n as int) =~= views(a@));
        assert(views(b@).subrange(0, n as int) =~= views(b@));
        if r is Some {
            lemma_add_vec_checked_len(views(a@), views(b@));
        }
    }
    r
}

/// Ideal componentwise difference of two fraction sequences of equal length.
pub open spec fn sub_vec_frac(a: Seq<Frac>, b: Seq<Frac>) -> Seq<Frac> {
    Seq::new(a.len(), |i: int| frac_sub(a[i], b[i]))
}

/// Ideal vector rejection: the component of `v` orthogonal to `t`, written
/// `v - (v . t) t`.
pub open spec fn reject_frac(v: Seq<Frac>, t: Seq<Frac>) -> Seq<Frac> {
    sub_vec_frac(v, scale_frac(dot_frac(v, t), t))
}

/// Exact mirror of the executable vector rejection.
pub open spec fn reject_checked(v: Seq<Frac>, t: Seq<Frac>) -> Option<Seq<Frac>> {
    match dot_checked(v, t) {
        None => None,
        Some(d) => match scale_checked(d, t) {
            None => None,
            Some(p) => sub_vec_checked(v, p),
        },
    }
}

/// The vector `v - (v . t) t`, the component of `v` orthogonal to `t` when
/// `t` is a unit vector; `None` exactly when an intermediate quantity is not
/// representable.
pub fn reject(v: &Vec<Rat>, t: &Vec<Rat>) -> (r: Option<Vec<Rat>>)
    requires
        v@.len() == t@.len(),
        seq_wf(views(v@)),
        seq_wf(views(t@)),
    ensures
        opt_views(r) == reject_checked(views(v@), views(t@)),
        r matches Some(x) ==> seq_wf(views(x@)) && x@.len() == v@.len(),
{
    let d = dot(v, t)?;
    let p = scale(d, t)?;
    sub_vec(v, &p)
}

/// Dropping the last element keeps every fraction well formed.
pub proof fn lemma_seq_wf_drop_last(s: Seq<Frac>)
    requires
        seq_wf(s),
        s.len() > 0,
    ensures
        seq_wf(s.drop_last()),
{
    assert forall|i: int| 0 <= i < s.drop_last().len() implies s.drop_last()[i].wf() by {
        assert(s.drop_last()[i] == s[i]);
    }
}

/// The ideal inner product of well-formed sequences is well formed.
pub proof fn lemma_dot_frac_wf(a: Seq<Frac>, b: Seq<Frac>)
    requires
        a.len() == b.len(),
        seq_wf(a),
        seq_wf(b),
    ensures
        dot_frac(a, b).wf(),
    decreases a.len(),
{
    if a.len() > 0 {
        lemma_seq_wf_drop_last(a);
        lemma_seq_wf_drop_last(b);
        lemma_dot_frac_wf(a.drop_last(), b.drop_last());
        lemma_frac_ops_wf(a.last(), b.last());
        lemma_frac_ops_wf(dot_frac(a.drop_last(), b.drop_last()), frac_mul(a.last(), b.last()));
    }
}

/// Ideal scaling keeps every fraction well formed and the length unchanged.
pub proof fn lemma_scale_frac_wf(k: Frac, s: Seq<Frac>)
    requires
        k.wf(),
        seq_wf(s),
    ensures
        seq_wf(scale_frac(k, s)),
        scale_frac(k, s).len() == s.len(),
{
    assert forall|i: int| 0 <= i < scale_frac(k, s).len() implies scale_frac(k, s)[i].wf() by {
        lemma_frac_ops_wf(k, s[i]);
    }
}

/// The ideal componentwise difference keeps well-formedness and length.
pub proof fn lemma_sub_vec_frac_wf(a: Seq<Frac>, b: Seq<Frac>)
    requires
        a.len() == b.len(),
        seq_wf(a),
        seq_wf(b),
    ensures
        seq_wf(sub_vec_frac(a, b)),
        sub_vec_frac(a, b).len() == a.len(),
{
    assert forall|i: int| 0 <= i < sub_vec_frac(a, b).len() implies sub_vec_frac(a, b)[i].wf() by {
        lemma_frac_ops_wf(a[i], b[i]);
    }
}

/// The ideal rejection keeps well-formedness and length.
pub proof fn lemma_reject_frac_wf(v: Seq<Frac>, t: Seq<Frac>)
    requires
        v.len() == t.len(),
        seq_wf(v),
        seq_wf(t),
    ensures
        seq_wf(reject_frac(v, t)),
        reject_frac(v, t).len() == v.len(),
{
    lemma_dot_frac_wf(v, t);
    lemma_scale_frac_wf(dot_frac(v, t), t);
    lemma_sub_vec_frac_wf(v, scale_frac(dot_frac(v, t), t));
}

/// The ideal inner product is symmetric.
pub proof fn lemma_dot_comm(a: Seq<Frac>, b: Seq<Frac>)
    requires
        a.len() == b.len(),
        seq_wf(a),
        seq_wf(b),
    ensures
        frac_eq(dot_frac(a, b), dot_frac(b, a)),
    decreases a.len(),
{
    if a.len() > 0 {
        lemma_seq_wf_drop_last(a);
        lemma_seq_wf_drop_last(b);
        lemma_dot_comm(a.drop_last(), b.drop_last());
        lemma_frac_mul_comm(a.last(), b.last());
        lemma_frac_add_congr(
            dot_frac(a.drop_last(), b.drop_last()),
            frac_mul(a.last(), b.last()),
            dot_frac(b.drop_last(), a.drop_last()),
            frac_mul(b.last(), a.last()),
        );
    }
}

/// Scaling the second argument of the ideal inner product pulls the scalar
/// out front.
pub proof fn lemma_dot_scale_right(a: Seq<Frac>, k: Frac, b: Seq<Frac>)
    requires
        a.len() == b.len(),
        seq_wf(a),
        seq_wf(b),
        k.wf(),
    ensures
        frac_eq(dot_frac(a, scale_frac(k, b)), frac_mul(k, dot_frac(a, b))),
    decreases a.len(),
{
    let sb = scale_frac(k, b);
    if a.len() == 0 {
        lemma_frac_mul_zero(k);
    } else {
        assert(sb.drop_last() =~= scale_frac(k, b.drop_last()));
        assert(sb.last() == frac_mul(k, b.last()));
        lemma_seq_wf_drop_last(a);
        lemma_seq_wf_drop_last(b);
        lemma_dot_scale_right(a.drop_last(), k, b.drop_last());
        let al = a.last();
        let bl = b.last();
        let dd = dot_frac(a.drop_last(), b.drop_last());
        // the last term: al (k bl) equals k (al bl)
        lemma_frac_mul_comm(al, frac_mul(k, bl));
        lemma_frac_mul_assoc(k, bl, al);
        lemma_frac_mul_comm(bl, al);
        lemma_frac_mul_congr(k, frac_mul(bl, al), k, frac_mul(al, bl));
        lemma_frac_ops_wf(k, bl);
        lemma_frac_ops_wf(al, frac_mul(k, bl));
        lemma_frac_ops_wf(frac_mul(k, bl), al);
        lemma_frac_ops_wf(bl, al);
        lemma_frac_ops_wf(k, frac_mul(bl, al));
        lemma_frac_eq_trans(
            frac_mul(al, frac_mul(k, bl)),
            frac_mul(frac_mul(k, bl), al),
            frac_mul(k, frac_mul(bl, al)),
        );
        lemma_frac_eq_trans(
            frac_mul(al, frac_mul(k, bl)),
            frac_mul(k, frac_mul(bl, al)),
            frac_mul(k, frac_mul(al, bl)),
        );
        // combine with the recursive call and distribute
        lemma_frac_add_congr(
            dot_frac(a.drop_last(), sb.drop_last()),
            frac_mul(al, sb.last()),
            frac_mul(k, dd),
            frac_mul(k, frac_mul(al, bl)),
        );
        lemma_frac_mul_distrib_left(k, dd, frac_mul(al, bl));
        lemma_dot_frac_wf(a.drop_last(), b.drop_last());
        lemma_frac_ops_wf(al, bl);
        lemma_frac_ops_wf(k, dd);
        lemma_frac_ops_wf(frac_mul(k, dd), frac_mul(k, frac_mul(al, bl)));
        lemma_frac_eq_trans(
            dot_frac(a, sb),
            frac_add(frac_mul(k, dd), frac_mul(k, frac_mul(al, bl))),
            frac_mul(k, dot_frac(a, b)),
        );
    }
}

/// Subtracting vectors subtracts their inner products with a third.
pub proof fn lemma_dot_sub_left(a: Seq<Frac>, b: Seq<Frac>, c: Seq<Frac>)
    requires
        a.len() == b.len(),
        a.len() == c.len(),
        seq_wf(a),
        seq_wf(b),
        seq_wf(c),
    ensures
        frac_eq(dot_frac(sub_vec_frac(a, b), c), frac_sub(dot_frac(a, c), dot_frac(b, c))),
    decreases a.len(),
{
    let s = sub_vec_frac(a, b);
    if a.len() == 0 {
        assert(s =~= Seq::<Frac>::empty());
        assert(dot_frac(s, c) == frac_zero());
        assert(frac_eq(dot_frac(s, c), frac_sub(dot_frac(a, c), dot_frac(b, c))));
    } else {
        assert(s.drop_last() =~= sub_vec_frac(a.drop_last(), b.drop_last()));
        assert(s.last() == frac_sub(a.last(), b.last()));
        lemma_seq_wf_drop_last(a);
        lemma_seq_wf_drop_last(b);
        lemma_seq_wf_drop_last(c);
        lemma_dot_sub_left(a.drop_last(), b.drop_last(), c.drop_last());
        lemma_frac_mul_distrib_sub_right(a.last(), b.last(), c.last());
        let dap = dot_frac(a.drop_last(), c.drop_last());
        let dbp = dot_frac(b.drop_last(), c.drop_last());
        let ma = frac_mul(a.last(), c.last());
        let mb = frac_mul(b.last(), c.last());
        lemma_dot_frac_wf(a.drop_last(), c.drop_last());
        lemma_dot_frac_wf(b.drop_last(), c.drop_last());
        lemma_frac_ops_wf(a.last(), c.last());
        lemma_frac_ops_wf(b.last(), c.last());
        lemma_frac_add_congr(
            dot_frac(s.drop_last(), c.drop_last()),
            frac_mul(s.last(), c.last()),
            frac_sub(dap, dbp),
            frac_sub(ma, mb),
        );
        assert(dot_frac(s, c) == frac_add(
            dot_frac(s.drop_last(), c.drop_last()),
            frac_mul(s.last(), c.last()),
        ));
        assert(dot_frac(a, c) == frac_add(dap, ma));
        assert(dot_frac(b, c) == frac_add(dbp, mb));
        lemma_frac_add_sub_exchange(dap, dbp, ma, mb);
        lemma_frac_ops_wf(dap, dbp);
        lemma_frac_ops_wf(ma, mb);
        lemma_frac_ops_wf(frac_sub(dap, dbp), frac_sub(ma, mb));
        lemma_frac_eq_trans(
            dot_frac(s, c),
            frac_add(frac_sub(dap, dbp), frac_sub(ma, mb)),
            frac_sub(frac_add(dap, ma), frac_add(dbp, mb)),
        );
    }
}

/// The rejection of `v` against a unit vector `t` is orthogonal to `t`:
/// this is why the rotation search can project its directions into the
/// plane perpendicular to the dimer axis and stay there.
pub proof fn lemma_reject_orthogonal(v: Seq<Frac>, t: Seq<Frac>)
    requires
        v.len() == t.len(),
        seq_wf(v),
        seq_wf(t),
        frac_eq(dot_frac(t, t), frac_one()),
    ensures
        frac_eq(dot_frac(reject_frac(v, t), t), frac_zero()),
{
    let d = dot_frac(v, t);
    let p = scale_frac(d, t);
    lemma_dot_frac_wf(v, t);
    lemma_scale_frac_wf(d, t);
    lemma_dot_sub_left(v, p, t);
    lemma_dot_comm(p, t);
    lemma_dot_scale_right(t, d, t);
    lemma_frac_mul_congr(d, dot_frac(t, t), d, frac_one());
    lemma_frac_mul_one(d);
    lemma_dot_frac_wf(t, t);
    lemma_dot_frac_wf(p, t);
    lemma_dot_frac_wf(t, p);
    lemma_frac_ops_wf(d, dot_frac(t, t));
    lemma_frac_ops_wf(d, frac_one());
    lemma_frac_eq_trans(dot_frac(p, t), dot_frac(t, p), frac_mul(d, dot_frac(t, t)));
    lemma_frac_eq_trans(dot_frac(p, t), frac_mul(d, dot_frac(t, t)), frac_mul(d, frac_one()));
    lemma_frac_eq_trans(dot_frac(p, t), frac_mul(d, frac_one()), d);
    lemma_frac_sub_congr(d, dot_frac(p, t), d, d);
    assert(frac_eq(frac_sub(d, d), frac_zero()));
    lemma_frac_ops_wf(d, dot_frac(p, t));
    lemma_frac_ops_wf(d, d);
    lemma_frac_eq_trans(
        dot_frac(reject_frac(v, t), t),
        frac_sub(d, dot_frac(p, t)),
        frac_sub(d, d),
    );
    lemma_frac_eq_trans(dot_frac(reject_frac(v, t), t), frac_sub(d, d), frac_zero());
}

/// A successful checked inner product is the ideal inner product.
pub proof fn lemma_dot_checked_frac(a: Seq<Frac>, b: Seq<Frac>)
    ensures
        dot_checked(a, b) matches Some(v) ==> v == dot_frac(a, b),
    decreases a.len(),
{
    if a.len() > 0 {
        lemma_dot_checked_frac(a.drop_last(), b.drop_last());
    }
}

/// A successful checked scaling is the ideal scaling.
pub proof fn lemma_scale_checked_frac(k: Frac, s: Seq<Frac>)
    ensures
        scale_checked(k, s) matches Some(t) ==> t =~= scale_frac(k, s),
    decreases s.len(),
{
    if s.len() > 0 {
        lemma_scale_checked_frac(k, s.drop_last());
    }
}

/// A successful checked difference is the ideal difference.
pub proof fn lemma_sub_vec_checked_frac(a: Seq<Frac>, b: Seq<Frac>)
    requires
        a.len() == b.len(),
    ensures
        sub_vec_checked(a, b) matches Some(t) ==> t =~= sub_vec_frac(a, b),
    decreases a.len(),
{
    if a.len() > 0 {
        lemma_sub_vec_checked_frac(a.drop_last(), b.drop_last());
    }
}

/// A successful checked rejection is the ideal rejection.
pub proof fn lemma_reject_checked_frac(v: Seq<Frac>, t: Seq<Frac>)
    requires
        v.len() == t.len(),
    ensures
        reject_checked(v, t) matches Some(u) ==> u =~= reject_frac(v, t),
{
    lemma_dot_checked_frac(v, t);
    match dot_checked(v, t) {
        None => {},
        Some(d) => {
            lemma_scale_checked_frac(d, t);
            lemma_scale_checked_len(d, t);
            match scale_checked(d, t) {
                None => {},
                Some(p) => {
                    lemma_sub_vec_checked_frac(v, p);
                },
            }
        },
    }
}

/// A successful scaling has the length of its input.
pub proof fn lemma_scale_checked_len(k: Frac, s: Seq<Frac>)
    ensures
        scale_checked(k, s) matches Some(t) ==> t.len() == s.len(),
    decreases s.len(),
{
    if s.len() > 0 {
        lemma_scale_checked_len(k, s.drop_last());
    }
}

/// A successful componentwise difference has the length of its inputs.
pub proof fn lemma_sub_vec_checked_len(a: Seq<Frac>, b: Seq<Frac>)
    ensures
        sub_vec_checked(a, b) matches Some(t) ==> t.len() == a.len(),
    decreases a.len(),
{
    if a.len() > 0 {
        lemma_sub_vec_checked_len(a.drop_last(), b.drop_last());
    }
}

/// A successful componentwise sum has the length of its inputs.
pub proof fn lemma_add_vec_checked_len(a: Seq<Frac>, b: Seq<Frac>)
    ensures
        add_vec_checked(a, b) matches Some(t) ==> t.len() == a.len(),
    decreases a.len(),
{
    if a.len() > 0 {
        lemma_add_vec_checked_len(a.drop_last(), b.drop_last());
    }
}

} // verus!
