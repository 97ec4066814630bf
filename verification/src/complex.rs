//! Exact complex scalars over the bounded rationals.
//!
//! A `Cx` is a pair `(re, im)` of exact rationals. The spec-level image `CxG`
//! is an unbounded pair, and every operation states the exact fraction it
//! computes together with the precise condition under which the bounded
//! representation suffices.

use vstd::prelude::*;

use crate::rational::{
    Rat, RatG, rat_eqv, rat_fits, rat_plus, rat_minus, rat_times, rat_wf, rat_zero,
};

verus! {

/// Mathematical (ghost) image of a complex scalar.
pub struct CxG {
    pub re: RatG,
    pub im: RatG,
}

/// An exact complex scalar with bounded rational components.
#[derive(Clone, Copy, PartialEq, Eq, Structural, Debug)]
pub struct Cx {
    pub re: Rat,
    pub im: Rat,
}

impl View for Cx {
    type V = CxG;

    open spec fn view(&self) -> CxG {
        CxG { re: self.re@, im: self.im@ }
    }
}

/// Both components are well-formed fractions.
pub open spec fn cx_wf(c: Cx) -> bool {
    rat_wf(c.re) && rat_wf(c.im)
}

/// The complex zero.
pub open spec fn cx_zero() -> CxG {
    CxG { re: rat_zero(), im: rat_zero() }
}

/// Exact complex sum.
pub open spec fn cx_plus(a: CxG, b: CxG) -> CxG {
    CxG { re: rat_plus(a.re, b.re), im: rat_plus(a.im, b.im) }
}

/// The sum's components all fit.
pub open spec fn cx_plus_fits(a: CxG, b: CxG) -> bool {
    rat_fits(rat_plus(a.re, b.re)) && rat_fits(rat_plus(a.im, b.im))
}

/// Exact complex product:
/// `(a.re*b.re - a.im*b.im, a.re*b.im + a.im*b.re)`.
pub open spec fn cx_times(a: CxG, b: CxG) -> CxG {
    CxG {
        re: rat_minus(rat_times(a.re, b.re), rat_times(a.im, b.im)),
        im: rat_plus(rat_times(a.re, b.im), rat_times(a.im, b.re)),
    }
}

/// Every intermediate fraction of the product fits.
pub open spec fn cx_times_fits(a: CxG, b: CxG) -> bool {
    &&& rat_fits(rat_times(a.re, b.re))
    &&& rat_fits(rat_times(a.im, b.im))
    &&& rat_fits(rat_times(a.re, b.im))
    &&& rat_fits(rat_times(a.im, b.re))
    &&& rat_fits(rat_minus(rat_times(a.re, b.re), rat_times(a.im, b.im)))
    &&& rat_fits(rat_plus(rat_times(a.re, b.im), rat_times(a.im, b.re)))
}

/// Exact scaling of both components by one rational.
pub open spec fn cx_scale(a: CxG, s: RatG) -> CxG {
    CxG { re: rat_times(a.re, s), im: rat_times(a.im, s) }
}

/// Both scaled components fit.
pub open spec fn cx_scale_fits(a: CxG, s: RatG) -> bool {
    rat_fits(rat_times(a.re, s)) && rat_fits(rat_times(a.im, s))
}

/// Exact squared magnitude `re*re + im*im`.
pub open spec fn cx_norm_sq(a: CxG) -> RatG {
    rat_plus(rat_times(a.re, a.re), rat_times(a.im, a.im))
}

/// The squared magnitude and its intermediate squares fit.
pub open spec fn cx_norm_sq_fits(a: CxG) -> bool {
    &&& rat_fits(rat_times(a.re, a.re))
    &&& rat_fits(rat_times(a.im, a.im))
    &&& rat_fits(rat_plus(rat_times(a.re, a.re), rat_times(a.im, a.im)))
}

/// A squared magnitude is never negative.
pub proof fn lemma_norm_sq_nonneg(a: CxG) by (nonlinear_arith)
    requires
        0 < a.re.den,
        0 < a.im.den,
    ensures
        cx_norm_sq(a).num >= 0,
        cx_norm_sq(a).den > 0,
{
}

/// The squared magnitude of a product is the product of the squared
/// magnitudes.
#[verifier::rlimit(100)]
pub proof fn lemma_times_norm_sq(a: CxG, b: CxG)
    requires
        0 < a.re.den,
        0 < a.im.den,
        0 < b.re.den,
        0 < b.im.den,
    ensures
        rat_eqv(cx_norm_sq(cx_times(a, b)), rat_times(cx_norm_sq(a), cx_norm_sq(b))),
{
    let p = a.re.num;
    let q = a.re.den;
    let r = a.im.num;
    let s = a.im.den;
    let t = b.re.num;
    let u = b.re.den;
    let v = b.im.num;
    let w = b.im.den;
    // The product's components.
    let an = (p * t) * (s * w) - (r * v) * (q * u);
    let red = (q * u) * (s * w);
    let bn = (p * v) * (s * u) + (r * t) * (q * w);
    let imd = (q * w) * (s * u);
    // The four monomials of the product of the squared magnitudes.
    let x = (p * t) * (s * w);
    let y = (r * v) * (q * u);
    let z = (p * v) * (s * u);
    let k = (r * t) * (q * w);
    let a1 = (p * p) * (s * s);
    let a2 = (r * r) * (q * q);
    let b1 = (t * t) * (w * w);
    let b2 = (v * v) * (u * u);
    let na = a1 + a2;
    let nb = b1 + b2;
    let d = ((q * q) * (s * s)) * ((u * u) * (w * w));
    assert(red * red == d) by (nonlinear_arith)
        requires
            red == (q * u) * (s * w),
            d == ((q * q) * (s * s)) * ((u * u) * (w * w)),
    ;
    assert(imd * imd == d) by (nonlinear_arith)
        requires
            imd == (q * w) * (s * u),
            d == ((q * q) * (s * s)) * ((u * u) * (w * w)),
    ;
    // The integer form of the identity, one monomial at a time; the cross
    // terms cancel.
    assert(an * an == x * x - 2 * (x * y) + y * y) by (nonlinear_arith)
        requires
            an == x - y,
    ;
    assert(bn * bn == z * z + 2 * (z * k) + k * k) by (nonlinear_arith)
        requires
            bn == z + k,
    ;
    assert(x * y == ((p * t) * (r * v)) * ((s * w) * (q * u))) by (nonlinear_arith)
        requires
            x == (p * t) * (s * w),
            y == (r * v) * (q * u),
    ;
    assert(z * k == ((p * v) * (r * t)) * ((s * u) * (q * w))) by (nonlinear_arith)
        requires
            z == (p * v) * (s * u),
            k == (r * t) * (q * w),
    ;
    assert((p * t) * (r * v) == (p * v) * (r * t)) by (nonlinear_arith);
    assert((s * w) * (q * u) == (s * u) * (q * w)) by (nonlinear_arith);
    assert(x * y == z * k);
    assert(x * x == a1 * b1) by (nonlinear_arith)
        requires
            x == (p * t) * (s * w),
            a1 == (p * p) * (s * s),
            b1 == (t * t) * (w * w),
    ;
    assert(y * y == a2 * b2) by (nonlinear_arith)
        requires
            y == (r * v) * (q * u),
            a2 == (r * r) * (q * q),
            b2 == (v * v) * (u * u),
    ;
    assert(z * z == a1 * b2) by (nonlinear_arith)
        requires
            z == (p * v) * (s * u),
            a1 == (p * p) * (s * s),
            b2 == (v * v) * (u * u),
    ;
    assert(k * k == a2 * b1) by (nonlinear_arith)
        requires
            k == (r * t) * (q * w),
            a2 == (r * r) * (q * q),
            b1 == (t * t) * (w * w),
    ;
    assert(na * nb == a1 * b1 + a1 * b2 + a2 * b1 + a2 * b2) by (nonlinear_arith)
        requires
            na == a1 + a2,
            nb == b1 + b2,
    ;
    assert(an * an + bn * bn == na * nb);
    assert(((an * an) * (imd * imd) + (bn * bn) * (red * red)) * d == (na * nb) * ((red * red) * (
    imd * imd))) by (nonlinear_arith)
        requires
            red * red == d,
            imd * imd == d,
            an * an + bn * bn == na * nb,
    ;
}

impl Cx {
    /// Build a complex scalar from two rationals.
    pub fn new(re: Rat, im: Rat) -> (r: Cx)
        ensures
            r.re == re,
            r.im == im,
    {
        Cx { re, im }
    }

    /// The complex zero.
    pub fn zero() -> (r: Cx)
        ensures
            r@ == cx_zero(),
            cx_wf(r),
    {
        Cx { re: Rat { num: 0, den: 1 }, im: Rat { num: 0, den: 1 } }
    }

    /// Exact sum; `None` exactly when a component leaves the bounded range.
    pub fn plus(&self, other: &Cx) -> (r: Option<Cx>)
        requires
            cx_wf(*self),
            cx_wf(*other),
        ensures
            r is Some <==> cx_plus_fits(self@, other@),
            r matches Some(v) ==> v@ == cx_plus(self@, other@) && cx_wf(v),
    {
        let re = match self.re.plus(&other.re) {
            Some(x) => x,
            None => { return None; },
        };
        let im = match self.im.plus(&other.im) {
            Some(x) => x,
            None => { return None; },
        };
        Some(Cx { re, im })
    }

    /// Exact product; `None` exactly when an intermediate fraction leaves the
    /// bounded range.
    pub fn times(&self, other: &Cx) -> (r: Option<Cx>)
        requires
            cx_wf(*self),
            cx_wf(*other),
        ensures
            r is Some <==> cx_times_fits(self@, other@),
            r matches Some(v) ==> v@ == cx_times(self@, other@) && cx_wf(v),
    {
        let rr = match self.re.times(&other.re) {
            Some(x) => x,
            None => { return None; },
        };
        let ii = match self.im.times(&other.im) {
            Some(x) => x,
            None => { return None; },
        };
        let ri = match self.re.times(&other.im) {
            Some(x) => x,
            None => { return None; },
        };
        let ir = match self.im.times(&other.re) {
            Some(x) => x,
            None => { return None; },
        };
        let re = match rr.minus(&ii) {
            Some(x) => x,
            None => { return None; },
        };
        let im = match ri.plus(&ir) {
            Some(x) => x,
            None => { return None; },
        };
        Some(Cx { re, im })
    }

    /// Scale both components by one rational.
    pub fn scale(&self, s: &Rat) -> (r: Option<Cx>)
        requires
            cx_wf(*self),
            rat_wf(*s),
        ensures
            r is Some <==> cx_scale_fits(self@, s@),
            r matches Some(v) ==> v@ == cx_scale(self@, s@) && cx_wf(v),
    {
        let re = match self.re.times(s) {
            Some(x) => x,
            None => { return None; },
        };
        let im = match self.im.times(s) {
            Some(x) => x,
            None => { return None; },
        };
        Some(Cx { re, im })
    }

    /// Exact squared magnitude; the result, when representable, is
    /// nonnegative.
    pub fn norm_sq(&self) -> (r: Option<Rat>)
        requires
            cx_wf(*self),
        ensures
            r is Some <==> cx_norm_sq_fits(self@),
            r matches Some(v) ==> v@ == cx_norm_sq(self@) && rat_wf(v) && v@.num >= 0,
    {
        let rr = match self.re.times(&self.re) {
            Some(x) => x,
            None => { return None; },
        };
        let ii = match self.im.times(&self.im) {
            Some(x) => x,
            None => { return None; },
        };
        let n = match rr.plus(&ii) {
            Some(x) => x,
            None => { return None; },
        };
        proof {
            lemma_norm_sq_nonneg(self@);
        }
        Some(n)
    }
}

} // verus!
