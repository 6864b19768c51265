//! Exact rational scalars.
//!
//! Every scalar quantity of the dimer core is a fraction of two machine
//! integers with a positive denominator.  The specification-level value of a
//! scalar is a [`Frac`], a pair of unbounded integers; two fractions denote
//! the same quantity when they cross-multiply equally.  Arithmetic is exact:
//! an operation either returns the exact result or reports that it left the
//! representable range.

use vstd::prelude::*;

verus! {

/// Mathematical fraction: the specification-level value of a [`Rat`].
pub ghost struct Frac {
    /// Numerator.
    pub n: int,
    /// Denominator.
    pub d: int,
}

impl Frac {
    /// A fraction is well formed when its denominator is positive.
    pub open spec fn wf(self) -> bool {
        self.d > 0
    }
}

/// The two fractions denote the same rational number.
pub open spec fn frac_eq(a: Frac, b: Frac) -> bool {
    a.n * b.d == b.n * a.d
}

/// `a` denotes a rational number no greater than `b` (valid when both
/// denominators are positive).
pub open spec fn frac_le(a: Frac, b: Frac) -> bool {
    a.n * b.d <= b.n * a.d
}

/// `a` denotes a rational number strictly below `b` (valid when both
/// denominators are positive).
pub open spec fn frac_lt(a: Frac, b: Frac) -> bool {
    a.n * b.d < b.n * a.d
}

/// The rational number zero.
pub open spec fn frac_zero() -> Frac {
    Frac { n: 0, d: 1 }
}

/// The rational number one.
pub open spec fn frac_one() -> Frac {
    Frac { n: 1, d: 1 }
}

/// The rational number denoted by an integer.
pub open spec fn frac_int(k: int) -> Frac {
    Frac { n: k, d: 1 }
}

/// Exact sum of two fractions.
pub open spec fn frac_add(a: Frac, b: Frac) -> Frac {
    Frac { n: a.n * b.d + b.n * a.d, d: a.d * b.d }
}

/// Exact difference of two fractions.
pub open spec fn frac_sub(a: Frac, b: Frac) -> Frac {
    Frac { n: a.n * b.d - b.n * a.d, d: a.d * b.d }
}

/// Exact product of two fractions.
pub open spec fn frac_mul(a: Frac, b: Frac) -> Frac {
    Frac { n: a.n * b.n, d: a.d * b.d }
}

/// Exact negation of a fraction.
pub open spec fn frac_neg(a: Frac) -> Frac {
    Frac { n: -a.n, d: a.d }
}

/// Exact quotient of two fractions; the sign of the divisor's numerator moves
/// into the numerator of the result so that the denominator stays positive.
/// Meaningful only when `b.n != 0`.
pub open spec fn frac_div(a: Frac, b: Frac) -> Frac {
    if b.n >= 0 {
        Frac { n: a.n * b.d, d: a.d * b.n }
    } else {
        Frac { n: -(a.n * b.d), d: -(a.d * b.n) }
    }
}

/// Exact halving of a fraction.
pub open spec fn frac_half(a: Frac) -> Frac {
    Frac { n: a.n, d: 2 * a.d }
}

/// Exact doubling of a fraction.
pub open spec fn frac_double(a: Frac) -> Frac {
    Frac { n: 2 * a.n, d: a.d }
}

/// The integer fits the carrier type of executable numerators and
/// denominators.
pub open spec fn fits_i64(x: int) -> bool {
    i64::MIN <= x <= i64::MAX
}

/// Both components of the fraction fit the carrier type.
pub open spec fn frac_fits(a: Frac) -> bool {
    fits_i64(a.n) && fits_i64(a.d)
}

/// The exact sum when it is representable, and `None` otherwise.  This is
/// precisely the value an executable addition returns.
pub open spec fn add_checked(a: Frac, b: Frac) -> Option<Frac> {
    if frac_fits(frac_add(a, b)) {
        Some(frac_add(a, b))
    } else {
        None
    }
}

/// The exact difference when it is representable, and `None` otherwise.
pub open spec fn sub_checked(a: Frac, b: Frac) -> Option<Frac> {
    if frac_fits(frac_sub(a, b)) {
        Some(frac_sub(a, b))
    } else {
        None
    }
}

/// The exact product when it is representable, and `None` otherwise.
pub open spec fn mul_checked(a: Frac, b: Frac) -> Option<Frac> {
    if frac_fits(frac_mul(a, b)) {
        Some(frac_mul(a, b))
    } else {
        None
    }
}

/// The exact quotient when it is representable, and `None` otherwise.
pub open spec fn div_checked(a: Frac, b: Frac) -> Option<Frac> {
    if frac_fits(frac_div(a, b)) {
        Some(frac_div(a, b))
    } else {
        None
    }
}

/// The exact negation when it is representable, and `None` otherwise.
pub open spec fn neg_checked(a: Frac) -> Option<Frac> {
    if frac_fits(frac_neg(a)) {
        Some(frac_neg(a))
    } else {
        None
    }
}

/// The exact half when it is representable, and `None` otherwise.
pub open spec fn half_checked(a: Frac) -> Option<Frac> {
    if frac_fits(frac_half(a)) {
        Some(frac_half(a))
    } else {
        None
    }
}

/// The exact double when it is representable, and `None` otherwise.
pub open spec fn double_checked(a: Frac) -> Option<Frac> {
    if frac_fits(frac_double(a)) {
        Some(frac_double(a))
    } else {
        None
    }
}

/// The fraction denoted by an optional scalar, for relating executable
/// results to their checked specification.
pub open spec fn opt_frac(r: Option<Rat>) -> Option<Frac> {
    match r {
        Some(x) => Some(x@),
        None => None,
    }
}

/// Denoting the same rational number is transitive (the middle denominator
/// must be nonzero).
pub proof fn lemma_frac_eq_trans(a: Frac, b: Frac, c: Frac)
    by (nonlinear_arith)
    requires
        b.d != 0,
        frac_eq(a, b),
        frac_eq(b, c),
    ensures
        frac_eq(a, c),
{
}

/// Multiplication of integers commutes.
pub proof fn lemma_mul_comm(p: int, q: int)
    by (nonlinear_arith)
    ensures
        p * q == q * p,
{
}

/// Pure rearrangement: pairs of a fourfold product regroup freely.
pub proof fn lemma_mul_shuffle(p: int, q: int, r: int, s: int)
    by (nonlinear_arith)
    ensures
        (p * q) * (r * s) == (p * r) * (q * s),
        (p * q) * (r * s) == (p * s) * (q * r),
        (p * q) * (r * s) == (p * r) * (s * q),
        (p * q) * (r * s) == (p * s) * (r * q),
{
}

/// Multiplication distributes over addition and subtraction.
pub proof fn lemma_mul_distrib(p: int, q: int, t: int)
    by (nonlinear_arith)
    ensures
        (p + q) * t == p * t + q * t,
        (p - q) * t == p * t - q * t,
        t * (p + q) == t * p + t * q,
        t * (p - q) == t * p - t * q,
{
}

/// Pure rearrangement: a threefold product regroups freely.
pub proof fn lemma_mul3(p: int, q: int, r: int)
    by (nonlinear_arith)
    ensures
        p * (q * r) == (p * q) * r,
        (p * q) * r == (p * r) * q,
        (p * q) * r == (q * r) * p,
        p * (q * r) == q * (p * r),
        p * (q * r) == r * (p * q),
{
}

/// Sums of equal addends are equal.
pub proof fn lemma_frac_add_congr(a: Frac, b: Frac, x: Frac, y: Frac)
    requires
        frac_eq(a, x),
        frac_eq(b, y),
    ensures
        frac_eq(frac_add(a, b), frac_add(x, y)),
{
    lemma_mul_distrib(a.n * b.d, b.n * a.d, x.d * y.d);
    lemma_mul_shuffle(a.n, b.d, x.d, y.d);
    lemma_mul_shuffle(b.n, a.d, x.d, y.d);
    lemma_mul_distrib(x.n * y.d, y.n * x.d, a.d * b.d);
    lemma_mul_shuffle(x.n, y.d, a.d, b.d);
    lemma_mul_shuffle(y.n, x.d, a.d, b.d);
    assert((a.n * x.d) * (b.d * y.d) == (x.n * a.d) * (b.d * y.d));
    assert((b.n * y.d) * (a.d * x.d) == (y.n * b.d) * (a.d * x.d));
}

/// Differences of equal operands are equal.
pub proof fn lemma_frac_sub_congr(a: Frac, b: Frac, x: Frac, y: Frac)
    requires
        frac_eq(a, x),
        frac_eq(b, y),
    ensures
        frac_eq(frac_sub(a, b), frac_sub(x, y)),
{
    lemma_mul_distrib(a.n * b.d, b.n * a.d, x.d * y.d);
    lemma_mul_shuffle(a.n, b.d, x.d, y.d);
    lemma_mul_shuffle(b.n, a.d, x.d, y.d);
    lemma_mul_distrib(x.n * y.d, y.n * x.d, a.d * b.d);
    lemma_mul_shuffle(x.n, y.d, a.d, b.d);
    lemma_mul_shuffle(y.n, x.d, a.d, b.d);
    assert((a.n * x.d) * (b.d * y.d) == (x.n * a.d) * (b.d * y.d));
    assert((b.n * y.d) * (a.d * x.d) == (y.n * b.d) * (a.d * x.d));
}

/// Products of equal factors are equal.
pub proof fn lemma_frac_mul_congr(a: Frac, b: Frac, x: Frac, y: Frac)
    requires
        frac_eq(a, x),
        frac_eq(b, y),
    ensures
        frac_eq(frac_mul(a, b), frac_mul(x, y)),
{
    assert((a.n * b.n) * (x.d * y.d) == (a.n * x.d) * (b.n * y.d)) by (nonlinear_arith);
    assert((x.n * y.n) * (a.d * b.d) == (x.n * a.d) * (y.n * b.d)) by (nonlinear_arith);
    assert((a.n * x.d) * (b.n * y.d) == (x.n * a.d) * (y.n * b.d));
}

/// Adding zero changes nothing.
pub proof fn lemma_frac_add_zero(a: Frac)
    by (nonlinear_arith)
    ensures
        frac_eq(frac_add(a, frac_zero()), a),
{
}

/// Multiplying by one changes nothing.
pub proof fn lemma_frac_mul_one(a: Frac)
    by (nonlinear_arith)
    ensures
        frac_eq(frac_mul(a, frac_one()), a),
{
}

/// Multiplying by zero gives zero.
pub proof fn lemma_frac_mul_zero(a: Frac)
    by (nonlinear_arith)
    requires
        a.d != 0,
    ensures
        frac_eq(frac_mul(a, frac_zero()), frac_zero()),
{
}

/// Subtracting and adding back the same quantity changes nothing.
pub proof fn lemma_frac_sub_add_cancel(x: Frac, y: Frac)
    by (nonlinear_arith)
    requires
        x.d != 0,
        y.d != 0,
    ensures
        frac_eq(frac_add(frac_sub(x, y), y), x),
{
}

/// Dividing and multiplying back by the same nonzero quantity changes
/// nothing.
pub proof fn lemma_frac_div_mul_cancel(a: Frac, b: Frac)
    by (nonlinear_arith)
    requires
        a.d != 0,
        b.d != 0,
        b.n != 0,
    ensures
        frac_eq(frac_mul(frac_div(a, b), b), a),
{
}

/// The arithmetic operations keep denominators positive.
pub proof fn lemma_frac_ops_wf(a: Frac, b: Frac)
    requires
        a.wf(),
        b.wf(),
    ensures
        frac_add(a, b).wf(),
        frac_sub(a, b).wf(),
        frac_mul(a, b).wf(),
        frac_half(a).wf(),
        frac_double(a).wf(),
        frac_neg(a).wf(),
{
    lemma_mul_pos(a.d, b.d);
}

/// Division by a nonzero quantity keeps the denominator positive.
pub proof fn lemma_frac_div_wf(a: Frac, b: Frac)
    requires
        a.wf(),
        b.wf(),
        b.n != 0,
    ensures
        frac_div(a, b).wf(),
{
    if b.n > 0 {
        lemma_mul_pos(a.d, b.n);
    } else {
        lemma_mul_pos(a.d, -b.n);
        assert(a.d * (-b.n) == -(a.d * b.n)) by (nonlinear_arith);
    }
}

/// Multiplying by a complement distributes: `v (1 - w)` equals `v - v w`.
#[verifier::rlimit(20)]
pub proof fn lemma_frac_mul_one_minus(v: Frac, w: Frac)
    by (nonlinear_arith)
    ensures
        frac_eq(frac_mul(v, frac_sub(frac_one(), w)), frac_sub(v, frac_mul(v, w))),
{
}

/// Subtracting a difference regroups into adding the subtrahend:
/// `u - (v - t)` equals `(u - v) + t`.
pub proof fn lemma_frac_sub_sub_add(u: Frac, v: Frac, t: Frac)
    ensures
        frac_eq(frac_sub(u, frac_sub(v, t)), frac_add(frac_sub(u, v), t)),
{
    lemma_mul_distrib(v.n * t.d, t.n * v.d, u.d);
    lemma_mul_distrib(u.n * v.d, v.n * u.d, t.d);
    lemma_mul3(u.n, v.d, t.d);
    lemma_mul3(v.n, t.d, u.d);
    lemma_mul3(t.n, v.d, u.d);
    lemma_mul3(t.n, u.d, v.d);
    assert(u.n * (v.d * t.d) - (v.n * t.d - t.n * v.d) * u.d == (u.n * v.d - v.n * u.d) * t.d
        + t.n * (u.d * v.d));
    lemma_mul3(u.d, v.d, t.d);
}

/// Regrouping a mixed difference: `(u - v) + v w` equals `u - v (1 - w)`.
pub proof fn lemma_frac_regroup(u: Frac, v: Frac, w: Frac)
    requires
        u.wf(),
        v.wf(),
        w.wf(),
    ensures
        frac_eq(
            frac_add(frac_sub(u, v), frac_mul(v, w)),
            frac_sub(u, frac_mul(v, frac_sub(frac_one(), w))),
        ),
{
    let m = frac_mul(v, frac_sub(frac_one(), w));
    let p = frac_mul(v, w);
    lemma_frac_mul_one_minus(v, w);
    lemma_frac_ops_wf(v, w);
    lemma_frac_ops_wf(frac_sub(frac_one(), w), w);
    lemma_frac_sub_congr(u, m, u, frac_sub(v, p));
    lemma_frac_sub_sub_add(u, v, p);
    lemma_frac_ops_wf(v, p);
    lemma_frac_ops_wf(u, frac_sub(v, p));
    lemma_frac_eq_trans(
        frac_sub(u, m),
        frac_sub(u, frac_sub(v, p)),
        frac_add(frac_sub(u, v), p),
    );
}

/// Subtracting a sum subtracts each addend in turn.
pub proof fn lemma_frac_sub_add_assoc(x: Frac, z: Frac, t: Frac)
    ensures
        frac_eq(frac_sub(x, frac_add(z, t)), frac_sub(frac_sub(x, z), t)),
{
    lemma_mul_distrib(z.n * t.d, t.n * z.d, x.d);
    lemma_mul_distrib(x.n * z.d, z.n * x.d, t.d);
    lemma_mul3(x.n, z.d, t.d);
    lemma_mul3(z.n, t.d, x.d);
    lemma_mul3(t.n, z.d, x.d);
    lemma_mul3(t.n, x.d, z.d);
    assert(x.n * (z.d * t.d) - (z.n * t.d + t.n * z.d) * x.d == (x.n * z.d - z.n * x.d) * t.d
        - t.n * (x.d * z.d));
    lemma_mul3(x.d, z.d, t.d);
}

/// Subtracting a difference from its minuend leaves the subtrahend.
pub proof fn lemma_frac_sub_sub(x: Frac, y: Frac)
    by (nonlinear_arith)
    requires
        x.d != 0,
        y.d != 0,
    ensures
        frac_eq(frac_sub(x, frac_sub(x, y)), y),
{
}

/// Multiplication of fractions commutes.
#[verifier::rlimit(20)]
pub proof fn lemma_frac_mul_comm(a: Frac, b: Frac)
    by (nonlinear_arith)
    ensures
        frac_eq(frac_mul(a, b), frac_mul(b, a)),
{
}

/// Multiplication of fractions associates.
#[verifier::rlimit(20)]
pub proof fn lemma_frac_mul_assoc(a: Frac, b: Frac, c: Frac)
    by (nonlinear_arith)
    ensures
        frac_eq(frac_mul(frac_mul(a, b), c), frac_mul(a, frac_mul(b, c))),
{
}

/// Multiplication of fractions distributes over addition.
pub proof fn lemma_frac_mul_distrib_left(k: Frac, x: Frac, y: Frac)
    ensures
        frac_eq(frac_mul(k, frac_add(x, y)), frac_add(frac_mul(k, x), frac_mul(k, y))),
{
    lemma_mul_distrib(x.n * y.d, y.n * x.d, k.n);
    lemma_mul_distrib(
        k.n * (x.n * y.d),
        k.n * (y.n * x.d),
        (k.d * x.d) * (k.d * y.d),
    );
    lemma_mul_distrib(
        (k.n * x.n) * (k.d * y.d),
        (k.n * y.n) * (k.d * x.d),
        k.d * (x.d * y.d),
    );
    assert((k.n * (x.n * y.d)) * ((k.d * x.d) * (k.d * y.d)) == ((k.n * x.n) * (k.d * y.d)) * (k.d
        * (x.d * y.d))) by (nonlinear_arith);
    assert((k.n * (y.n * x.d)) * ((k.d * x.d) * (k.d * y.d)) == ((k.n * y.n) * (k.d * x.d)) * (k.d
        * (x.d * y.d))) by (nonlinear_arith);
}

/// Multiplication of fractions distributes over subtraction from the right.
pub proof fn lemma_frac_mul_distrib_sub_right(x: Frac, y: Frac, z: Frac)
    requires
        x.wf(),
        y.wf(),
        z.wf(),
    ensures
        frac_eq(frac_mul(frac_sub(x, y), z), frac_sub(frac_mul(x, z), frac_mul(y, z))),
{
    lemma_frac_add_neg(x, y);
    lemma_frac_mul_comm(frac_add(x, frac_neg(y)), z);
    lemma_frac_mul_distrib_left(z, x, frac_neg(y));
    lemma_frac_mul_neg(z, y);
    lemma_frac_add_neg(frac_mul(z, x), frac_mul(z, y));
    lemma_frac_mul_comm(z, x);
    lemma_frac_mul_comm(z, y);
    lemma_frac_sub_congr(frac_mul(z, x), frac_mul(z, y), frac_mul(x, z), frac_mul(y, z));
    lemma_frac_ops_wf(y, y);
    lemma_frac_ops_wf(x, frac_neg(y));
    lemma_frac_ops_wf(z, frac_add(x, frac_neg(y)));
    lemma_frac_ops_wf(z, x);
    lemma_frac_ops_wf(z, y);
    lemma_frac_ops_wf(frac_mul(z, x), frac_mul(z, y));
    lemma_frac_eq_trans(
        frac_mul(frac_sub(x, y), z),
        frac_mul(z, frac_add(x, frac_neg(y))),
        frac_add(frac_mul(z, x), frac_mul(z, frac_neg(y))),
    );
    lemma_frac_eq_trans(
        frac_mul(frac_sub(x, y), z),
        frac_sub(frac_mul(z, x), frac_mul(z, y)),
        frac_sub(frac_mul(x, z), frac_mul(y, z)),
    );
}

/// A sum of two differences is the difference of the two sums.
pub proof fn lemma_frac_add_sub_exchange(p: Frac, q: Frac, u: Frac, v: Frac)
    ensures
        frac_eq(
            frac_add(frac_sub(p, q), frac_sub(u, v)),
            frac_sub(frac_add(p, u), frac_add(q, v)),
        ),
{
    lemma_mul_distrib(p.n * q.d, q.n * p.d, u.d * v.d);
    lemma_mul_distrib(u.n * v.d, v.n * u.d, p.d * q.d);
    lemma_mul_distrib(p.n * u.d, u.n * p.d, q.d * v.d);
    lemma_mul_distrib(q.n * v.d, v.n * q.d, p.d * u.d);
    assert((p.n * q.d) * (u.d * v.d) == (p.n * u.d) * (q.d * v.d)) by (nonlinear_arith);
    assert((q.n * p.d) * (u.d * v.d) == (q.n * v.d) * (p.d * u.d)) by (nonlinear_arith);
    assert((u.n * v.d) * (p.d * q.d) == (u.n * p.d) * (q.d * v.d)) by (nonlinear_arith);
    assert((v.n * u.d) * (p.d * q.d) == (v.n * q.d) * (p.d * u.d)) by (nonlinear_arith);
    assert((p.d * q.d) * (u.d * v.d) == (p.d * u.d) * (q.d * v.d)) by (nonlinear_arith);
}

/// A common nonzero factor cancels from an equality of products.
pub proof fn lemma_frac_mul_cancel(x: Frac, y: Frac, d: Frac)
    requires
        x.wf(),
        y.wf(),
        d.wf(),
        d.n != 0,
        frac_eq(frac_mul(x, d), frac_mul(y, d)),
    ensures
        frac_eq(x, y),
{
    assert((x.n * d.n) * (y.d * d.d) == (y.n * d.n) * (x.d * d.d));
    lemma_mul_shuffle(x.n, d.n, y.d, d.d);
    lemma_mul_shuffle(y.n, d.n, x.d, d.d);
    assert((x.n * y.d) * (d.n * d.d) == (y.n * x.d) * (d.n * d.d));
    assert(d.n * d.d != 0) by (nonlinear_arith)
        requires
            d.n != 0,
            d.d > 0,
    ;
    assert(x.n * y.d == y.n * x.d) by (nonlinear_arith)
        requires
            (x.n * y.d) * (d.n * d.d) == (y.n * x.d) * (d.n * d.d),
            d.n * d.d != 0,
    ;
}

/// Two positive fractions with equal squares are equal.
pub proof fn lemma_frac_sqrt_unique(k1: Frac, k2: Frac)
    requires
        k1.wf(),
        k2.wf(),
        frac_lt(frac_zero(), k1),
        frac_lt(frac_zero(), k2),
        frac_eq(frac_mul(k1, k1), frac_mul(k2, k2)),
    ensures
        frac_eq(k1, k2),
{
    assert((k1.n * k1.n) * (k2.d * k2.d) == (k2.n * k2.n) * (k1.d * k1.d));
    lemma_mul_shuffle(k1.n, k1.n, k2.d, k2.d);
    lemma_mul_shuffle(k2.n, k2.n, k1.d, k1.d);
    assert((k1.n * k2.d) * (k1.n * k2.d) == (k2.n * k1.d) * (k2.n * k1.d));
    assert(k1.n * k2.d > 0) by (nonlinear_arith)
        requires
            k1.n > 0,
            k2.d > 0,
    ;
    assert(k2.n * k1.d > 0) by (nonlinear_arith)
        requires
            k2.n > 0,
            k1.d > 0,
    ;
    assert(k1.n * k2.d == k2.n * k1.d) by (nonlinear_arith)
        requires
            (k1.n * k2.d) * (k1.n * k2.d) == (k2.n * k1.d) * (k2.n * k1.d),
            k1.n * k2.d > 0,
            k2.n * k1.d > 0,
    ;
}

/// Multiplying both sides of a comparison by a positive factor keeps it and
/// is the only way it arose.
pub proof fn lemma_mul_ord_pos(x: int, y: int, t: int)
    by (nonlinear_arith)
    requires
        t > 0,
    ensures
        (x < y) <==> (x * t < y * t),
        (x <= y) <==> (x * t <= y * t),
{
}

/// Order between fractions respects denoting the same rational number.
pub proof fn lemma_frac_ord_congr(a: Frac, b: Frac, x: Frac, y: Frac)
    requires
        a.wf(),
        b.wf(),
        x.wf(),
        y.wf(),
        frac_eq(a, x),
        frac_eq(b, y),
    ensures
        frac_lt(a, b) <==> frac_lt(x, y),
        frac_le(a, b) <==> frac_le(x, y),
{
    lemma_mul_pos(x.d, y.d);
    lemma_mul_pos(a.d, b.d);
    lemma_mul_ord_pos(a.n * b.d, b.n * a.d, x.d * y.d);
    lemma_mul_ord_pos(x.n * y.d, y.n * x.d, a.d * b.d);
    lemma_mul_shuffle(a.n, b.d, x.d, y.d);
    assert((a.n * x.d) * (b.d * y.d) == (x.n * a.d) * (b.d * y.d));
    lemma_mul_shuffle(x.n, a.d, b.d, y.d);
    lemma_mul_shuffle(b.n, a.d, x.d, y.d);
    assert((b.n * y.d) * (a.d * x.d) == (y.n * b.d) * (a.d * x.d));
    lemma_mul_shuffle(y.n, b.d, a.d, x.d);
    lemma_mul_comm(b.d, a.d);
}

/// Adding one quantity to both sides keeps the strict order, and is the
/// only way it arose.
pub proof fn lemma_frac_add_lt_cancel(h: Frac, x: Frac, y: Frac)
    requires
        h.wf(),
        x.wf(),
        y.wf(),
    ensures
        frac_lt(frac_add(h, x), frac_add(h, y)) <==> frac_lt(x, y),
{
    lemma_mul_distrib(h.n * x.d, x.n * h.d, h.d * y.d);
    lemma_mul_distrib(h.n * y.d, y.n * h.d, h.d * x.d);
    lemma_mul_shuffle(h.n, x.d, h.d, y.d);
    lemma_mul_comm(x.d, h.d);
    assert((h.n * x.d) * (h.d * y.d) == (h.n * y.d) * (h.d * x.d));
    lemma_mul_shuffle(x.n, h.d, h.d, y.d);
    lemma_mul_shuffle(y.n, h.d, h.d, x.d);
    assert((x.n * h.d) * (h.d * y.d) == (x.n * y.d) * (h.d * h.d));
    assert((y.n * h.d) * (h.d * x.d) == (y.n * x.d) * (h.d * h.d));
    lemma_mul_pos(h.d, h.d);
    lemma_mul_ord_pos(x.n * y.d, y.n * x.d, h.d * h.d);
}

/// Taking a positive quantity away from one side and adding it to the other
/// strictly separates the two.
pub proof fn lemma_frac_sub_lt_add(h: Frac, k: Frac)
    requires
        h.wf(),
        k.wf(),
        frac_lt(frac_zero(), k),
    ensures
        frac_lt(frac_sub(h, k), frac_add(h, k)),
{
    lemma_mul_distrib(h.n * k.d, k.n * h.d, h.d * k.d);
    lemma_mul_pos(k.n, h.d);
    lemma_mul_pos(h.d, k.d);
    lemma_mul_pos(k.n * h.d, h.d * k.d);
}

/// A summand of one that sits beside a nonnegative summand is at most one.
pub proof fn lemma_frac_part_le_one(x: Frac, y: Frac)
    requires
        x.wf(),
        y.wf(),
        frac_eq(frac_add(x, y), frac_one()),
        frac_le(frac_zero(), y),
    ensures
        frac_le(x, frac_one()),
{
    assert(x.n * y.d + y.n * x.d == x.d * y.d);
    assert(y.n * x.d >= 0) by (nonlinear_arith)
        requires
            y.n >= 0,
            x.d > 0,
    ;
    assert(x.n * y.d <= x.d * y.d);
    lemma_mul_ord_pos(x.n, x.d, y.d);
}

/// A positive fraction whose square is at most one is itself at most one.
pub proof fn lemma_frac_le_one_sqrt(c: Frac)
    requires
        c.wf(),
        frac_lt(frac_zero(), c),
        frac_le(frac_mul(c, c), frac_one()),
    ensures
        frac_le(c, frac_one()),
{
    assert(c.n <= c.d) by (nonlinear_arith)
        requires
            c.n > 0,
            c.d > 0,
            c.n * c.n <= c.d * c.d,
    ;
}

/// Multiplying by a negated factor negates the product.
pub proof fn lemma_frac_mul_neg(x: Frac, y: Frac)
    ensures
        frac_mul(x, frac_neg(y)) == frac_neg(frac_mul(x, y)),
{
    assert(x.n * (-y.n) == -(x.n * y.n)) by (nonlinear_arith);
}

/// Adding a negated quantity subtracts it.
pub proof fn lemma_frac_add_neg(x: Frac, y: Frac)
    ensures
        frac_add(x, frac_neg(y)) == frac_sub(x, y),
{
    assert((-y.n) * x.d == -(y.n * x.d)) by (nonlinear_arith);
}

/// Addition of fractions associates.
pub proof fn lemma_frac_add_assoc(x: Frac, y: Frac, z: Frac)
    ensures
        frac_eq(frac_add(frac_add(x, y), z), frac_add(x, frac_add(y, z))),
{
    lemma_mul_distrib(x.n * y.d, y.n * x.d, z.d);
    lemma_mul_distrib(y.n * z.d, z.n * y.d, x.d);
    lemma_mul3(x.n, y.d, z.d);
    lemma_mul3(y.n, x.d, z.d);
    lemma_mul3(z.n, x.d, y.d);
    lemma_mul3(z.n, y.d, x.d);
    assert((x.n * y.d + y.n * x.d) * z.d + z.n * (x.d * y.d) == x.n * (y.d * z.d) + (y.n * z.d
        + z.n * y.d) * x.d);
    lemma_mul3(x.d, y.d, z.d);
}

/// Half of the double of a quantity is that quantity.
pub proof fn lemma_frac_half_double(x: Frac)
    by (nonlinear_arith)
    requires
        x.d != 0,
    ensures
        frac_eq(frac_half(frac_double(x)), x),
{
}

/// Exact rational scalar: a numerator and a positive denominator.
#[derive(Clone, Copy, Debug, PartialEq, Eq, Structural)]
pub struct Rat {
    /// Numerator.
    pub num: i64,
    /// Denominator; kept strictly positive.
    pub den: i64,
}

impl View for Rat {
    type V = Frac;

    open spec fn view(&self) -> Frac {
        Frac { n: self.num as int, d: self.den as int }
    }
}

/// Any product of two in-range numerators or denominators stays well inside
/// the wide intermediate type.
proof fn lemma_mul_i64_range(a: int, b: int)
    by (nonlinear_arith)
    requires
        fits_i64(a),
        fits_i64(b),
    ensures
        -0x4000_0000_0000_0000_0000_0000_0000_0000 <= a * b
            <= 0x4000_0000_0000_0000_0000_0000_0000_0000,
{
}

/// A product with a positive in-range factor stays strictly inside half the
/// wide range, so two such products can be added without overflow.
proof fn lemma_mul_i64_pos_range(a: int, b: int)
    by (nonlinear_arith)
    requires
        fits_i64(a),
        0 < b <= i64::MAX,
    ensures
        -0x3fff_ffff_ffff_ffff_8000_0000_0000_0000 <= a * b
            <= 0x3fff_ffff_ffff_ffff_8000_0000_0000_0000,
{
}

/// The product of two positive integers is positive.
proof fn lemma_mul_pos(a: int, b: int)
    by (nonlinear_arith)
    requires
        a > 0,
        b > 0,
    ensures
        a * b > 0,
{
}

impl Rat {
    /// The denominator is positive, so the scalar denotes a rational number.
    pub open spec fn wf(self) -> bool {
        self.den > 0
    }

    /// Build a scalar from a numerator and a positive denominator.
    pub fn new(num: i64, den: i64) -> (r: Rat)
        requires
            den > 0,
        ensures
            r.wf(),
            r@ == (Frac { n: num as int, d: den as int }),
    {
        Rat { num, den }
    }

    /// Build a scalar denoting an integer.
    pub fn from_int(num: i64) -> (r: Rat)
        ensures
            r.wf(),
            r@ == (Frac { n: num as int, d: 1 }),
    {
        Rat { num, den: 1 }
    }

    /// The scalar zero.
    pub fn zero() -> (r: Rat)
        ensures
            r.wf(),
            r@ == frac_zero(),
    {
        Rat { num: 0, den: 1 }
    }

    /// The scalar one.
    pub fn one() -> (r: Rat)
        ensures
            r.wf(),
            r@ == frac_one(),
    {
        Rat { num: 1, den: 1 }
    }

    /// Exact sum; `None` exactly when the unreduced result leaves the
    /// representable range.
    pub fn add(self, rhs: Rat) -> (r: Option<Rat>)
        requires
            self.wf(),
            rhs.wf(),
        ensures
            opt_frac(r) == add_checked(self@, rhs@),
            r matches Some(x) ==> x.wf(),
    {
        let n1 = self.num as i128;
        let d1 = self.den as i128;
        let n2 = rhs.num as i128;
        let d2 = rhs.den as i128;
        proof {
            lemma_mul_i64_pos_range(n1 as int, d2 as int);
            lemma_mul_i64_pos_range(n2 as int, d1 as int);
            lemma_mul_i64_pos_range(d1 as int, d2 as int);
            lemma_mul_pos(d1 as int, d2 as int);
        }
        let n = n1 * d2 + n2 * d1;
        let d = d1 * d2;
        if i64::MIN as i128 <= n && n <= i64::MAX as i128 && d <= i64::MAX as i128 {
            Some(Rat { num: n as i64, den: d as i64 })
        } else {
            None
        }
    }

    /// Exact difference; `None` exactly when the unreduced result leaves the
    /// representable range.
    pub fn sub(self, rhs: Rat) -> (r: Option<Rat>)
        requires
            self.wf(),
            rhs.wf(),
        ensures
            opt_frac(r) == sub_checked(self@, rhs@),
            r matches Some(x) ==> x.wf(),
    {
        let n1 = self.num as i128;
        let d1 = self.den as i128;
        let n2 = rhs.num as i128;
        let d2 = rhs.den as i128;
        proof {
            lemma_mul_i64_pos_range(n1 as int, d2 as int);
            lemma_mul_i64_pos_range(n2 as int, d1 as int);
            lemma_mul_i64_pos_range(d1 as int, d2 as int);
            lemma_mul_pos(d1 as int, d2 as int);
        }
        let n = n1 * d2 - n2 * d1;
        let d = d1 * d2;
        if i64::MIN as i128 <= n && n <= i64::MAX as i128 && d <= i64::MAX as i128 {
            Some(Rat { num: n as i64, den: d as i64 })
        } else {
            None
        }
    }

    /// Exact product; `None` exactly when the unreduced result leaves the
    /// representable range.
    pub fn mul(self, rhs: Rat) -> (r: Option<Rat>)
        requires
            self.wf(),
            rhs.wf(),
        ensures
            opt_frac(r) == mul_checked(self@, rhs@),
            r matches Some(x) ==> x.wf(),
    {
        let n1 = self.num as i128;
        let d1 = self.den as i128;
        let n2 = rhs.num as i128;
        let d2 = rhs.den as i128;
        proof {
            lemma_mul_i64_range(n1 as int, n2 as int);
            lemma_mul_i64_pos_range(d1 as int, d2 as int);
            lemma_mul_pos(d1 as int, d2 as int);
        }
        let n = n1 * n2;
        let d = d1 * d2;
        if i64::MIN as i128 <= n && n <= i64::MAX as i128 && d <= i64::MAX as i128 {
            Some(Rat { num: n as i64, den: d as i64 })
        } else {
            None
        }
    }

    /// Exact quotient; the divisor must be nonzero.  `None` exactly when the
    /// unreduced result leaves the representable range.
    pub fn div(self, rhs: Rat) -> (r: Option<Rat>)
        requires
            self.wf(),
            rhs.wf(),
            rhs@.n != 0,
        ensures
            opt_frac(r) == div_checked(self@, rhs@),
            r matches Some(x) ==> x.wf(),
    {
        let n1 = self.num as i128;
        let d1 = self.den as i128;
        let n2 = rhs.num as i128;
        let d2 = rhs.den as i128;
        proof {
            lemma_mul_i64_pos_range(n1 as int, d2 as int);
            lemma_mul_i64_range(d1 as int, n2 as int);
            if n2 > 0 {
                lemma_mul_pos(d1 as int, n2 as int);
            } else {
                lemma_mul_pos(d1 as int, -n2 as int);
                assert(d1 as int * (-n2 as int) == -(d1 as int * n2 as int))
                    by (nonlinear_arith);
            }
        }
        let n = if rhs.num >= 0 { n1 * d2 } else { -(n1 * d2) };
        let d = if rhs.num >= 0 { d1 * n2 } else { -(d1 * n2) };
        if i64::MIN as i128 <= n && n <= i64::MAX as i128 && d <= i64::MAX as i128 {
            Some(Rat { num: n as i64, den: d as i64 })
        } else {
            None
        }
    }

    /// Exact negation; `None` exactly when the numerator cannot be negated in
    /// the carrier type.
    pub fn neg(self) -> (r: Option<Rat>)
        requires
            self.wf(),
        ensures
            opt_frac(r) == neg_checked(self@),
            r matches Some(x) ==> x.wf(),
    {
        if self.num == i64::MIN {
            None
        } else {
            Some(Rat { num: -self.num, den: self.den })
        }
    }

    /// Exact half; `None` exactly when the doubled denominator leaves the
    /// representable range.
    pub fn half(self) -> (r: Option<Rat>)
        requires
            self.wf(),
        ensures
            opt_frac(r) == half_checked(self@),
            r matches Some(x) ==> x.wf(),
    {
        if self.den <= i64::MAX / 2 {
            Some(Rat { num: self.num, den: 2 * self.den })
        } else {
            None
        }
    }

    /// Exact double; `None` exactly when the doubled numerator leaves the
    /// representable range.
    pub fn double(self) -> (r: Option<Rat>)
        requires
            self.wf(),
        ensures
            opt_frac(r) == double_checked(self@),
            r matches Some(x) ==> x.wf(),
    {
        if i64::MIN / 2 <= self.num && self.num <= i64::MAX / 2 {
            Some(Rat { num: 2 * self.num, den: self.den })
        } else {
            None
        }
    }

    /// The comparison `self < rhs` on denoted rational numbers.
    pub fn lt(self, rhs: Rat) -> (r: bool)
        requires
            self.wf(),
            rhs.wf(),
        ensures
            r == frac_lt(self@, rhs@),
    {
        let n1 = self.num as i128;
        let d1 = self.den as i128;
        let n2 = rhs.num as i128;
        let d2 = rhs.den as i128;
        proof {
            lemma_mul_i64_pos_range(n1 as int, d2 as int);
            lemma_mul_i64_pos_range(n2 as int, d1 as int);
        }
        n1 * d2 < n2 * d1
    }

    /// The comparison `self <= rhs` on denoted rational numbers.
    pub fn le(self, rhs: Rat) -> (r: bool)
        requires
            self.wf(),
            rhs.wf(),
        ensures
            r == frac_le(self@, rhs@),
    {
        let n1 = self.num as i128;
        let d1 = self.den as i128;
        let n2 = rhs.num as i128;
        let d2 = rhs.den as i128;
        proof {
            lemma_mul_i64_pos_range(n1 as int, d2 as int);
            lemma_mul_i64_pos_range(n2 as int, d1 as int);
        }
        n1 * d2 <= n2 * d1
    }

    /// Whether the two scalars denote the same rational number.
    pub fn eqv(self, rhs: Rat) -> (r: bool)
        requires
            self.wf(),
            rhs.wf(),
        ensures
            r == frac_eq(self@, rhs@),
    {
        let n1 = self.num as i128;
        let d1 = self.den as i128;
        let n2 = rhs.num as i128;
        let d2 = rhs.den as i128;
        proof {
            lemma_mul_i64_pos_range(n1 as int, d2 as int);
            lemma_mul_i64_pos_range(n2 as int, d1 as int);
        }
        n1 * d2 == n2 * d1
    }

    /// Whether the magnitude of this scalar is strictly below `rhs`.
    pub fn abs_lt(self, rhs: Rat) -> (r: bool)
        requires
            self.wf(),
            rhs.wf(),
        ensures
            r == (frac_lt(self@, rhs@) && frac_lt(frac_neg(self@), rhs@)),
    {
        let n1 = self.num as i128;
        let d1 = self.den as i128;
        let n2 = rhs.num as i128;
        let d2 = rhs.den as i128;
        proof {
            lemma_mul_i64_pos_range(n1 as int, d2 as int);
            lemma_mul_i64_pos_range(n2 as int, d1 as int);
            assert((-(self.num as int)) * (rhs.den as int) == -((self.num as int) * (
            rhs.den as int))) by (nonlinear_arith);
        }
        n1 * d2 < n2 * d1 && -(n1 * d2) < n2 * d1
    }

    /// Whether the scalar denotes a nonnegative rational number.
    pub fn is_nonneg(self) -> (r: bool)
        requires
            self.wf(),
        ensures
            r == frac_le(frac_zero(), self@),
    {
        self.num >= 0
    }

    /// The smaller of the two denoted rational numbers (the left one on
    /// ties).
    pub fn min(self, rhs: Rat) -> (r: Rat)
        requires
            self.wf(),
            rhs.wf(),
        ensures
            r.wf(),
            r == (if frac_le(self@, rhs@) {
                self
            } else {
                rhs
            }),
    {
        if self.le(rhs) {
            self
        } else {
            rhs
        }
    }
}

} // verus!
