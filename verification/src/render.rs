//! The grid sampler: normalized device coordinates for each cell of an
//! R-by-C grid in row-major order, the time-driven rotation of the sample
//! point, and the mapping from an evaluated field value to a color and a dot
//! radius.
//!
//! Radii are handled through their squares: the drawn radius is
//! `min(|target|, 2) / 2 * max_radius`, so its square is
//! `min(|target|^2, 4) / 4 * max_radius^2`, which is exact in rational
//! arithmetic; radii compare exactly as their squares do.

use vstd::prelude::*;

use vstd::arithmetic::div_mod::lemma_fundamental_div_mod_converse;

use crate::complex::{
    Cx, CxG, cx_wf, cx_times, cx_times_fits, cx_norm_sq, cx_norm_sq_fits, lemma_norm_sq_nonneg,
    lemma_times_norm_sq,
};
use crate::rational::{
    Rat, RatG, rat_fits, rat_lt, rat_le, rat_eqv, rat_plus, rat_minus, rat_times, rat_wf,
    rat_zero, rat_one, RAT_BOUND,
};

verus! {

/// The palette: symbolic names for the fixed colors of the piece.
#[derive(Clone, Copy, PartialEq, Eq, Structural, Debug)]
pub enum Color {
    White,
    SuperPink,
    SpaceCadet,
    Black,
}

/// The rational four, the squared clamping range of the radius rule.
pub open spec fn rat_four() -> RatG {
    RatG { num: 4, den: 1 }
}

/// The rational one quarter.
pub open spec fn rat_quarter() -> RatG {
    RatG { num: 1, den: 4 }
}

/// Pick the cell color from the evaluated value: white exactly when the
/// value's phase is strictly negative, super pink otherwise. The phase of a
/// complex value is strictly negative exactly when its imaginary part is,
/// so a value with phase exactly zero renders super pink (the boundary
/// belongs to the else branch).
pub fn color_for(target: &Cx) -> (c: Color)
    requires
        cx_wf(*target),
    ensures
        c == (if rat_lt(target@.im, rat_zero()) {
            Color::White
        } else {
            Color::SuperPink
        }),
{
    if target.im.is_neg() {
        Color::White
    } else {
        Color::SuperPink
    }
}

/// Rotate a sample point by a unit direction (the renderer's time rotation:
/// the direction is the unit vector of angle `time * 2*pi`), holding the
/// magnitude fixed: a complex product with a direction of squared magnitude
/// exactly one.
pub fn rotate(source: &Cx, dir: &Cx) -> (r: Option<Cx>)
    requires
        cx_wf(*source),
        cx_wf(*dir),
        cx_norm_sq_fits(dir@),
        rat_eqv(cx_norm_sq(dir@), rat_one()),
    ensures
        r is Some <==> cx_times_fits(source@, dir@),
        r matches Some(v) ==> v@ == cx_times(source@, dir@) && cx_wf(v) && rat_eqv(
            cx_norm_sq(v@),
            cx_norm_sq(source@),
        ),
{
    proof {
        lemma_rotation_preserves_norm(source@, dir@);
    }
    source.times(dir)
}

/// The time rotation holds the magnitude fixed: multiplying by a direction of
/// squared magnitude one preserves the squared magnitude exactly.
pub proof fn lemma_rotation_preserves_norm(source: CxG, dir: CxG)
    requires
        0 < source.re.den,
        0 < source.im.den,
        0 < dir.re.den,
        0 < dir.im.den,
        rat_eqv(cx_norm_sq(dir), rat_one()),
    ensures
        rat_eqv(cx_norm_sq(cx_times(source, dir)), cx_norm_sq(source)),
{
    lemma_times_norm_sq(source, dir);
    let turned = cx_norm_sq(cx_times(source, dir));
    let nss = cx_norm_sq(source);
    let nsd = cx_norm_sq(dir);
    let mid = rat_times(nss, nsd);
    lemma_norm_sq_nonneg(source);
    lemma_norm_sq_nonneg(dir);
    assert(0 < turned.den) by (nonlinear_arith)
        requires
            0 < source.re.den,
            0 < source.im.den,
            0 < dir.re.den,
            0 < dir.im.den,
            turned == cx_norm_sq(cx_times(source, dir)),
    ;
    assert(rat_eqv(nsd, rat_one()));
    assert(nsd.num * rat_one().den == rat_one().num * nsd.den);
    assert(rat_one().den == 1 && rat_one().num == 1);
    assert(nsd.num * 1 == 1 * nsd.den);
    assert(nsd.num == nsd.den) by (nonlinear_arith)
        requires
            nsd.num * 1 == 1 * nsd.den,
    ;
    assert(0 < mid.den) by (nonlinear_arith)
        requires
            mid == rat_times(nss, nsd),
            0 < nss.den,
            0 < nsd.den,
    ;
    // A direction of squared magnitude one scales nothing.
    assert(rat_eqv(mid, nss)) by (nonlinear_arith)
        requires
            mid == rat_times(nss, nsd),
            nsd.num == nsd.den,
    ;
    // Value equality is transitive across a fraction with a positive
    // denominator.
    assert(rat_eqv(turned, nss)) by (nonlinear_arith)
        requires
            rat_eqv(turned, mid),
            rat_eqv(mid, nss),
            0 < mid.den,
            mid == rat_times(nss, nsd),
            0 < nss.den,
            0 < nsd.den,
            0 < turned.den,
    ;
}

/// The grid cells in drawing order: row-major, so cell `(row, col)` stands at
/// index `row * cols + col`, and `(0, 0)` comes first.
pub fn grid_cells(rows: usize, cols: usize) -> (v: Vec<(usize, usize)>)
    requires
        0 < cols,
        rows * cols <= usize::MAX,
    ensures
        v@.len() == rows * cols,
        forall|k: int|
            0 <= k < v@.len() ==> (#[trigger] v@[k]).0 as int == k / (cols as int) && v@[k].1
                as int == k % (cols as int),
{
    let mut v: Vec<(usize, usize)> = Vec::new();
    let mut row: usize = 0;
    while row < rows
        invariant
            row <= rows,
            0 < cols,
            rows * cols <= usize::MAX,
            v@.len() == row * cols,
            forall|k: int|
                0 <= k < v@.len() ==> (#[trigger] v@[k]).0 as int == k / (cols as int) && v@[k].1
                    as int == k % (cols as int),
        decreases rows - row,
    {
        let mut col: usize = 0;
        proof {
            assert(row * cols + cols <= rows * cols) by (nonlinear_arith)
                requires
                    row < rows,
                    0 < cols,
            ;
        }
        while col < cols
            invariant
                col <= cols,
                row < rows,
                0 < cols,
                rows * cols <= usize::MAX,
                row * cols + cols <= rows * cols,
                v@.len() == row * cols + col,
                forall|k: int|
                    0 <= k < v@.len() ==> (#[trigger] v@[k]).0 as int == k / (cols as int)
                        && v@[k].1 as int == k % (cols as int),
            decreases cols - col,
        {
            proof {
                lemma_fundamental_div_mod_converse(
                    (row * cols + col) as int,
                    cols as int,
                    row as int,
                    col as int,
                );
            }
            v.push((row, col));
            col = col + 1;
        }
        proof {
            assert((row + 1) * cols == row * cols + cols) by (nonlinear_arith);
        }
        row = row + 1;
    }
    v
}

/// The normalized coordinate of grid index `idx` out of `count`:
/// `2 * (idx / count) - 1 + max_radius`. The `+ max_radius` offset shifts
/// every sample point; it is not a centering correction.
pub open spec fn ndc_coord(idx: int, count: int, mr: RatG) -> RatG {
    rat_plus(
        rat_minus(rat_times(RatG { num: 2, den: 1 }, RatG { num: idx, den: count }), rat_one()),
        mr,
    )
}

/// Every intermediate fraction of `ndc_coord` fits.
pub open spec fn ndc_coord_fits(idx: int, count: int, mr: RatG) -> bool {
    &&& rat_fits(rat_times(RatG { num: 2, den: 1 }, RatG { num: idx, den: count }))
    &&& rat_fits(
        rat_minus(rat_times(RatG { num: 2, den: 1 }, RatG { num: idx, den: count }), rat_one()),
    )
    &&& rat_fits(ndc_coord(idx, count, mr))
}

/// One exact normalized coordinate.
fn ndc_of(idx: usize, count: usize, max_radius: &Rat) -> (r: Option<Rat>)
    requires
        0 < count,
        idx < count,
        (count as int) < RAT_BOUND as int,
        rat_wf(*max_radius),
    ensures
        r is Some <==> ndc_coord_fits(idx as int, count as int, max_radius@),
        r matches Some(v) ==> v@ == ndc_coord(idx as int, count as int, max_radius@) && rat_wf(v),
{
    let two = Rat::new(2, 1);
    let one = Rat::new(1, 1);
    let d = Rat { num: idx as i128, den: count as i128 };
    let t1 = match two.times(&d) {
        Some(x) => x,
        None => { return None; },
    };
    let t2 = match t1.minus(&one) {
        Some(x) => x,
        None => { return None; },
    };
    match t2.plus(max_radius) {
        Some(x) => Some(x),
        None => None,
    }
}

/// The exact normalized device coordinates of one cell:
/// `ndc_x` from the column, `ndc_y` from the row.
pub fn cell_ndc(row: usize, col: usize, rows: usize, cols: usize, max_radius: &Rat) -> (r: Option<
    (Rat, Rat),
>)
    requires
        0 < rows,
        0 < cols,
        row < rows,
        col < cols,
        (rows as int) < RAT_BOUND as int,
        (cols as int) < RAT_BOUND as int,
        rat_wf(*max_radius),
    ensures
        r is Some <==> ndc_coord_fits(col as int, cols as int, max_radius@) && ndc_coord_fits(
            row as int,
            rows as int,
            max_radius@,
        ),
        r matches Some(p) ==> p.0@ == ndc_coord(col as int, cols as int, max_radius@) && p.1@
            == ndc_coord(row as int, rows as int, max_radius@) && rat_wf(p.0) && rat_wf(p.1),
{
    let x = match ndc_of(col, cols, max_radius) {
        Some(v) => v,
        None => { return None; },
    };
    let y = match ndc_of(row, rows, max_radius) {
        Some(v) => v,
        None => { return None; },
    };
    Some((x, y))
}

/// The square of the dot radius for a value of squared magnitude `nsq`:
/// `min(nsq, 4) / 4 * max_radius^2` (the magnitude is clamped to the range 2
/// before scaling).
pub open spec fn radius_sq(nsq: RatG, mr: RatG) -> RatG {
    if rat_lt(nsq, rat_four()) {
        rat_times(rat_times(nsq, rat_quarter()), rat_times(mr, mr))
    } else {
        rat_times(rat_one(), rat_times(mr, mr))
    }
}

/// Every intermediate fraction of `radius_sq` fits.
pub open spec fn radius_sq_fits(nsq: RatG, mr: RatG) -> bool {
    &&& rat_fits(rat_times(mr, mr))
    &&& if rat_lt(nsq, rat_four()) {
        rat_fits(rat_times(nsq, rat_quarter())) && rat_fits(
            rat_times(rat_times(nsq, rat_quarter()), rat_times(mr, mr)),
        )
    } else {
        rat_fits(rat_times(rat_one(), rat_times(mr, mr)))
    }
}

/// The exact squared dot radius.
pub fn dot_radius_sq(nsq: &Rat, max_radius: &Rat) -> (r: Option<Rat>)
    requires
        rat_wf(*nsq),
        rat_wf(*max_radius),
        nsq@.num >= 0,
    ensures
        r is Some <==> radius_sq_fits(nsq@, max_radius@),
        r matches Some(v) ==> v@ == radius_sq(nsq@, max_radius@) && rat_wf(v),
{
    let four = Rat::new(4, 1);
    let quarter = Rat::new(1, 4);
    let one = Rat::new(1, 1);
    let mrsq = match max_radius.times(max_radius) {
        Some(x) => x,
        None => { return None; },
    };
    if nsq.lt(&four) {
        let scaled = match nsq.times(&quarter) {
            Some(x) => x,
            None => { return None; },
        };
        match scaled.times(&mrsq) {
            Some(x) => Some(x),
            None => None,
        }
    } else {
        match one.times(&mrsq) {
            Some(x) => Some(x),
            None => None,
        }
    }
}

/// Order is preserved under multiplication by a positive rational.
pub proof fn lemma_rat_lt_times_pos(a: RatG, b: RatG, c: RatG) by (nonlinear_arith)
    requires
        0 < a.den,
        0 < b.den,
        0 < c.den,
        0 < c.num,
        rat_lt(a, b),
    ensures
        rat_lt(rat_times(a, c), rat_times(b, c)),
{
}

/// A strict bound composes with a loose one.
pub proof fn lemma_rat_lt_le_trans(a: RatG, b: RatG, c: RatG) by (nonlinear_arith)
    requires
        0 < a.den,
        0 < b.den,
        0 < c.den,
        rat_lt(a, b),
        rat_le(b, c),
    ensures
        rat_lt(a, c),
{
}

/// Radius monotonicity: for two squared magnitudes `n1 < n2 <= 4` (that is,
/// magnitudes `m1 < m2 <= 2`) and a positive maximum radius, the squared
/// radius for `n1` is strictly below the one for `n2`; since radii are
/// nonnegative, the radii themselves are ordered the same way.
pub proof fn lemma_radius_monotone(n1: RatG, n2: RatG, mr: RatG)
    requires
        0 < n1.den,
        0 < n2.den,
        0 < mr.den,
        0 < mr.num,
        rat_lt(n1, n2),
        rat_le(n2, rat_four()),
    ensures
        rat_lt(radius_sq(n1, mr), radius_sq(n2, mr)),
{
    let mrsq = rat_times(mr, mr);
    assert(0 < mrsq.num && 0 < mrsq.den) by (nonlinear_arith)
        requires
            0 < mr.num,
            0 < mr.den,
            mrsq == rat_times(mr, mr),
    ;
    lemma_rat_lt_le_trans(n1, n2, rat_four());
    if rat_lt(n2, rat_four()) {
        lemma_rat_lt_times_pos(n1, n2, rat_quarter());
        lemma_rat_lt_times_pos(rat_times(n1, rat_quarter()), rat_times(n2, rat_quarter()), mrsq);
    } else {
        assert(rat_lt(rat_times(n1, rat_quarter()), rat_one())) by (nonlinear_arith)
            requires
                0 < n1.den,
                rat_lt(n1, rat_four()),
        ;
        lemma_rat_lt_times_pos(rat_times(n1, rat_quarter()), rat_one(), mrsq);
    }
}

/// Radius saturation: any squared magnitude of at least 4 (a magnitude of at
/// least 2) gives the full squared radius `max_radius^2`.
pub proof fn lemma_radius_saturates(n: RatG, mr: RatG)
    requires
        0 < n.den,
        0 < mr.den,
        rat_le(rat_four(), n),
    ensures
        radius_sq(n, mr) == rat_times(rat_one(), rat_times(mr, mr)),
        rat_eqv(radius_sq(n, mr), rat_times(mr, mr)),
{
}

} // verus!
