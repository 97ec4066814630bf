//! Exact rational scalars.
//!
//! A `Rat` is a fraction `num / den` with a positive denominator. Both
//! components are kept strictly below `RAT_BOUND` in magnitude, so the product
//! of any two components of well-formed rationals fits in `i128` and every
//! operation can be carried out exactly. Operations that would leave the
//! bounded range return `None`; their contracts say exactly when that happens.

use vstd::prelude::*;

verus! {

/// Magnitude bound for numerators and denominators of well-formed rationals.
pub const RAT_BOUND: i128 = 0x8000_0000_0000_0000;

/// Mathematical (ghost) image of a rational: an unbounded fraction.
pub struct RatG {
    pub num: int,
    pub den: int,
}

/// An exact rational number with bounded components.
#[derive(Clone, Copy, PartialEq, Eq, Structural, Debug)]
pub struct Rat {
    pub num: i128,
    pub den: i128,
}

impl View for Rat {
    type V = RatG;

    open spec fn view(&self) -> RatG {
        RatG { num: self.num as int, den: self.den as int }
    }
}

/// The fraction has a positive denominator and both components are within the
/// representable range.
pub open spec fn rat_fits(r: RatG) -> bool {
    &&& -(RAT_BOUND as int) < r.num < RAT_BOUND as int
    &&& 0 < r.den < RAT_BOUND as int
}

/// A well-formed `Rat`: its mathematical image fits.
pub open spec fn rat_wf(r: Rat) -> bool {
    rat_fits(r@)
}

/// `a < b` as rationals (cross-multiplication; meaningful for positive
/// denominators).
pub open spec fn rat_lt(a: RatG, b: RatG) -> bool {
    a.num * b.den < b.num * a.den
}

/// `a <= b` as rationals.
pub open spec fn rat_le(a: RatG, b: RatG) -> bool {
    a.num * b.den <= b.num * a.den
}

/// `a == b` as rationals (equal values, possibly different representations).
pub open spec fn rat_eqv(a: RatG, b: RatG) -> bool {
    a.num * b.den == b.num * a.den
}

/// Exact sum, as a fraction over the product of the denominators.
pub open spec fn rat_plus(a: RatG, b: RatG) -> RatG {
    RatG { num: a.num * b.den + b.num * a.den, den: a.den * b.den }
}

/// Exact difference.
pub open spec fn rat_minus(a: RatG, b: RatG) -> RatG {
    RatG { num: a.num * b.den - b.num * a.den, den: a.den * b.den }
}

/// Exact product.
pub open spec fn rat_times(a: RatG, b: RatG) -> RatG {
    RatG { num: a.num * b.num, den: a.den * b.den }
}

/// Exact negation.
pub open spec fn rat_negate(a: RatG) -> RatG {
    RatG { num: -a.num, den: a.den }
}

/// Exact quotient (meaningful for a positive divisor).
pub open spec fn rat_div(a: RatG, b: RatG) -> RatG {
    RatG { num: a.num * b.den, den: a.den * b.num }
}

/// The product of two values strictly inside the bound stays strictly inside
/// the squared bound.
pub proof fn lemma_prod_bound(x: int, y: int) by (nonlinear_arith)
    requires
        -(RAT_BOUND as int) < x < RAT_BOUND as int,
        -(RAT_BOUND as int) < y < RAT_BOUND as int,
    ensures
        -((RAT_BOUND as int) * (RAT_BOUND as int)) < x * y
            < (RAT_BOUND as int) * (RAT_BOUND as int),
{
}

/// The product of two positive values is positive.
pub proof fn lemma_prod_pos(x: int, y: int) by (nonlinear_arith)
    requires
        0 < x,
        0 < y,
    ensures
        0 < x * y,
{
}

impl Rat {
    /// Build a rational from machine integers.
    pub fn new(num: i64, den: i64) -> (r: Rat)
        requires
            num > i64::MIN,
            den > 0,
        ensures
            r@.num == num as int,
            r@.den == den as int,
            rat_wf(r),
    {
        Rat { num: num as i128, den: den as i128 }
    }

    /// Exact comparison `self < other`.
    pub fn lt(&self, other: &Rat) -> (r: bool)
        requires
            rat_wf(*self),
            rat_wf(*other),
        ensures
            r == rat_lt(self@, other@),
    {
        proof {
            lemma_prod_bound(self.num as int, other.den as int);
            lemma_prod_bound(other.num as int, self.den as int);
        }
        self.num * other.den < other.num * self.den
    }

    /// Exact comparison `self <= other`.
    pub fn le(&self, other: &Rat) -> (r: bool)
        requires
            rat_wf(*self),
            rat_wf(*other),
        ensures
            r == rat_le(self@, other@),
    {
        proof {
            lemma_prod_bound(self.num as int, other.den as int);
            lemma_prod_bound(other.num as int, self.den as int);
        }
        self.num * other.den <= other.num * self.den
    }

    /// Exact equality of values (representations may differ).
    pub fn eq_value(&self, other: &Rat) -> (r: bool)
        requires
            rat_wf(*self),
            rat_wf(*other),
        ensures
            r == rat_eqv(self@, other@),
    {
        proof {
            lemma_prod_bound(self.num as int, other.den as int);
            lemma_prod_bound(other.num as int, self.den as int);
        }
        self.num * other.den == other.num * self.den
    }

    /// True iff the value is negative.
    pub fn is_neg(&self) -> (r: bool)
        requires
            rat_wf(*self),
        ensures
            r == rat_lt(self@, rat_zero()),
    {
        proof {
            lemma_prod_bound(self.num as int, 1int);
        }
        self.num < 0
    }

    /// True iff the value is zero.
    pub fn is_zero(&self) -> (r: bool)
        requires
            rat_wf(*self),
        ensures
            r == rat_eqv(self@, rat_zero()),
    {
        self.num == 0
    }

    /// Exact sum; `None` exactly when the unreduced result leaves the bounded
    /// range.
    pub fn plus(&self, other: &Rat) -> (r: Option<Rat>)
        requires
            rat_wf(*self),
            rat_wf(*other),
        ensures
            r is Some <==> rat_fits(rat_plus(self@, other@)),
            r matches Some(v) ==> v@ == rat_plus(self@, other@) && rat_wf(v),
    {
        proof {
            lemma_prod_bound(self.num as int, other.den as int);
            lemma_prod_bound(other.num as int, self.den as int);
            lemma_prod_bound(self.den as int, other.den as int);
            lemma_prod_pos(self.den as int, other.den as int);
        }
        let n: i128 = self.num * other.den + other.num * self.den;
        let d: i128 = self.den * other.den;
        if -RAT_BOUND < n && n < RAT_BOUND && d < RAT_BOUND {
            Some(Rat { num: n, den: d })
        } else {
            None
        }
    }

    /// Exact difference; `None` exactly when the unreduced result leaves the
    /// bounded range.
    pub fn minus(&self, other: &Rat) -> (r: Option<Rat>)
        requires
            rat_wf(*self),
            rat_wf(*other),
        ensures
            r is Some <==> rat_fits(rat_minus(self@, other@)),
            r matches Some(v) ==> v@ == rat_minus(self@, other@) && rat_wf(v),
    {
        proof {
            lemma_prod_bound(self.num as int, other.den as int);
            lemma_prod_bound(other.num as int, self.den as int);
            lemma_prod_bound(self.den as int, other.den as int);
            lemma_prod_pos(self.den as int, other.den as int);
        }
        let n: i128 = self.num * other.den - other.num * self.den;
        let d: i128 = self.den * other.den;
        if -RAT_BOUND < n && n < RAT_BOUND && d < RAT_BOUND {
            Some(Rat { num: n, den: d })
        } else {
            None
        }
    }

    /// Exact product; `None` exactly when the unreduced result leaves the
    /// bounded range.
    pub fn times(&self, other: &Rat) -> (r: Option<Rat>)
        requires
            rat_wf(*self),
            rat_wf(*other),
        ensures
            r is Some <==> rat_fits(rat_times(self@, other@)),
            r matches Some(v) ==> v@ == rat_times(self@, other@) && rat_wf(v),
    {
        proof {
            lemma_prod_bound(self.num as int, other.num as int);
            lemma_prod_bound(self.den as int, other.den as int);
            lemma_prod_pos(self.den as int, other.den as int);
        }
        let n: i128 = self.num * other.num;
        let d: i128 = self.den * other.den;
        if -RAT_BOUND < n && n < RAT_BOUND && d < RAT_BOUND {
            Some(Rat { num: n, den: d })
        } else {
            None
        }
    }

    /// Exact quotient by a positive rational; `None` exactly when the
    /// unreduced result leaves the bounded range.
    pub fn divided(&self, other: &Rat) -> (r: Option<Rat>)
        requires
            rat_wf(*self),
            rat_wf(*other),
            other@.num > 0,
        ensures
            r is Some <==> rat_fits(rat_div(self@, other@)),
            r matches Some(v) ==> v@ == rat_div(self@, other@) && rat_wf(v),
    {
        proof {
            lemma_prod_bound(self.num as int, other.den as int);
            lemma_prod_bound(self.den as int, other.num as int);
            lemma_prod_pos(self.den as int, other.num as int);
        }
        let n: i128 = self.num * other.den;
        let d: i128 = self.den * other.num;
        if -RAT_BOUND < n && n < RAT_BOUND && d < RAT_BOUND {
            Some(Rat { num: n, den: d })
        } else {
            None
        }
    }

    /// Exact negation; always representable.
    pub fn neg(&self) -> (r: Rat)
        requires
            rat_wf(*self),
        ensures
            r@.num == -self@.num,
            r@.den == self@.den,
            rat_wf(r),
    {
        Rat { num: -self.num, den: self.den }
    }
}

/// Floor of the integer square root, defined by counting up.
pub open spec fn sqrt_floor(n: nat) -> nat
    decreases n,
{
    if n == 0 {
        0
    } else {
        let s = sqrt_floor((n - 1) as nat);
        if (s + 1) * (s + 1) <= n {
            s + 1
        } else {
            s
        }
    }
}

/// `sqrt_floor(n)` is the unique `s` with `s * s <= n < (s + 1) * (s + 1)`.
pub proof fn lemma_sqrt_floor_bounds(n: nat)
    ensures
        sqrt_floor(n) * sqrt_floor(n) <= n,
        n < (sqrt_floor(n) + 1) * (sqrt_floor(n) + 1),
    decreases n,
{
    if n == 0 {
        assert(sqrt_floor(0) == 0);
        assert(n < (sqrt_floor(n) + 1) * (sqrt_floor(n) + 1)) by (nonlinear_arith)
            requires
                n == 0,
                sqrt_floor(n) == 0,
        ;
    } else {
        lemma_sqrt_floor_bounds((n - 1) as nat);
        let s = sqrt_floor((n - 1) as nat);
        assert(s * s <= n - 1);
        assert(n - 1 < (s + 1) * (s + 1));
        if (s + 1) * (s + 1) <= n {
            assert(sqrt_floor(n) == s + 1);
            assert(n <= (s + 1) * (s + 1));
            assert((s + 1) * (s + 1) < (s + 2) * (s + 2)) by (nonlinear_arith);
            assert(n < (s + 2) * (s + 2));
            assert(n < (sqrt_floor(n) + 1) * (sqrt_floor(n) + 1)) by (nonlinear_arith)
                requires
                    sqrt_floor(n) == s + 1,
                    n < (s + 2) * (s + 2),
            ;
        } else {
            assert(sqrt_floor(n) == s);
            assert(s * s <= n);
            assert(n < (sqrt_floor(n) + 1) * (sqrt_floor(n) + 1)) by (nonlinear_arith)
                requires
                    sqrt_floor(n) == s,
                    n < (s + 1) * (s + 1),
            ;
        }
    }
}

/// Two integers that both satisfy the square-root bounds for `n` are equal.
pub proof fn lemma_sqrt_unique(n: int, a: int, b: int) by (nonlinear_arith)
    requires
        0 <= a,
        0 <= b,
        a * a <= n < (a + 1) * (a + 1),
        b * b <= n < (b + 1) * (b + 1),
    ensures
        a == b,
{
}

/// Floor square root of a machine integer, by binary search.
pub fn isqrt(n: i128) -> (r: i128)
    requires
        0 <= n,
        n < (RAT_BOUND as int) * (RAT_BOUND as int),
    ensures
        r == sqrt_floor(n as nat),
        0 <= r < RAT_BOUND as int,
        r * r <= n < (r + 1) * (r + 1),
{
    let mut lo: i128 = 0;
    let mut hi: i128 = RAT_BOUND - 1;
    proof {
        lemma_prod_bound(RAT_BOUND as int - 1, RAT_BOUND as int - 1);
        assert((RAT_BOUND as int) * (RAT_BOUND as int) <= (RAT_BOUND as int - 1 + 1) * (
        RAT_BOUND as int - 1 + 1));
    }
    while lo < hi
        invariant
            0 <= lo <= hi + 1,
            hi < RAT_BOUND as int,
            lo * lo <= n,
            n < (hi + 1) * (hi + 1),
        decreases hi - lo,
    {
        let mid: i128 = lo + (hi - lo + 1) / 2;
        proof {
            lemma_prod_bound(mid as int, mid as int);
        }
        if mid * mid <= n {
            lo = mid;
        } else {
            hi = mid - 1;
        }
    }
    proof {
        lemma_sqrt_floor_bounds(n as nat);
        lemma_sqrt_unique(n as int, lo as int, sqrt_floor(n as nat) as int);
    }
    lo
}

/// Floor square root of a nonnegative rational, as a rational over the same
/// denominator: `sqrt(num/den) == sqrt(num*den) / den`, rounded down in the
/// numerator.
pub open spec fn rat_sqrt(a: RatG) -> RatG {
    RatG { num: sqrt_floor((a.num * a.den) as nat) as int, den: a.den }
}

impl Rat {
    /// Floor square root in the `1/den` grid; always representable for a
    /// well-formed nonnegative rational.
    pub fn sqrt_approx(&self) -> (r: Rat)
        requires
            rat_wf(*self),
            self@.num >= 0,
        ensures
            r@ == rat_sqrt(self@),
            rat_wf(r),
            r@.num >= 0,
    {
        proof {
            lemma_prod_bound(self.num as int, self.den as int);
        }
        let prod: i128 = self.num * self.den;
        let root = isqrt(prod);
        proof {
            assert(root < RAT_BOUND as int);
        }
        Rat { num: root, den: self.den }
    }
}

/// The rational zero.
pub open spec fn rat_zero() -> RatG {
    RatG { num: 0, den: 1 }
}

/// The rational one.
pub open spec fn rat_one() -> RatG {
    RatG { num: 1, den: 1 }
}

} // verus!
