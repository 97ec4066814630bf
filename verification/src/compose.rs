//! Frame composition: the four quadrant transforms with their reflections,
//! the normalized time that drives the renderer's rotation, and the size of
//! one exported frame.
//!
//! A transform scopes one quadrant's render: it maps a point `p` of the
//! renderer's local coordinates to `translate + scale * p`, componentwise,
//! with the quadrant's reflection folded into the sign of the scale.

use vstd::prelude::*;

use crate::clock::{Clock, clock_wf};
use crate::complex::{Cx, CxG};
use crate::rational::{
    Rat, RatG, rat_fits, rat_lt, rat_le, rat_eqv, rat_plus, rat_times, rat_div, rat_negate,
    rat_wf, rat_zero, rat_one, RAT_BOUND,
};

verus! {

/// Ghost image of a quadrant transform.
pub struct XformG {
    pub sx: RatG,
    pub sy: RatG,
    pub tx: RatG,
    pub ty: RatG,
}

/// A scale-and-translate transform; reflections are negative scales.
#[derive(Clone, Copy, PartialEq, Eq, Structural, Debug)]
pub struct Xform {
    pub sx: Rat,
    pub sy: Rat,
    pub tx: Rat,
    pub ty: Rat,
}

impl View for Xform {
    type V = XformG;

    open spec fn view(&self) -> XformG {
        XformG { sx: self.sx@, sy: self.sy@, tx: self.tx@, ty: self.ty@ }
    }
}

/// All four components are well-formed fractions.
pub open spec fn xform_wf(x: Xform) -> bool {
    rat_wf(x.sx) && rat_wf(x.sy) && rat_wf(x.tx) && rat_wf(x.ty)
}

/// Where the transform places a local point: `translate + scale * p`.
pub open spec fn xform_apply(x: XformG, p: CxG) -> CxG {
    CxG {
        re: rat_plus(x.tx, rat_times(x.sx, p.re)),
        im: rat_plus(x.ty, rat_times(x.sy, p.im)),
    }
}

/// Both placed components fit.
pub open spec fn xform_apply_fits(x: XformG, p: CxG) -> bool {
    rat_fits(rat_times(x.sx, p.re)) && rat_fits(rat_plus(x.tx, rat_times(x.sx, p.re)))
        && rat_fits(rat_times(x.sy, p.im)) && rat_fits(rat_plus(x.ty, rat_times(x.sy, p.im)))
}

impl Xform {
    /// Place one local point on the canvas.
    pub fn apply(&self, p: &Cx) -> (r: Option<Cx>)
        requires
            xform_wf(*self),
            crate::complex::cx_wf(*p),
        ensures
            r is Some <==> xform_apply_fits(self@, p@),
            r matches Some(v) ==> v@ == xform_apply(self@, p@) && crate::complex::cx_wf(v),
    {
        let xs = match self.sx.times(&p.re) {
            Some(v) => v,
            None => { return None; },
        };
        let re = match self.tx.plus(&xs) {
            Some(v) => v,
            None => { return None; },
        };
        let ys = match self.sy.times(&p.im) {
            Some(v) => v,
            None => { return None; },
        };
        let im = match self.ty.plus(&ys) {
            Some(v) => v,
            None => { return None; },
        };
        Some(Cx { re, im })
    }
}

/// The top-left quadrant: half scale, center `(-1/2, -1/2)`, no reflection.
pub open spec fn top_left() -> Xform {
    Xform {
        sx: Rat { num: 1, den: 2 },
        sy: Rat { num: 1, den: 2 },
        tx: Rat { num: -1i128, den: 2 },
        ty: Rat { num: -1i128, den: 2 },
    }
}

/// The top-right quadrant: mirrored on the x axis.
pub open spec fn top_right() -> Xform {
    Xform {
        sx: Rat { num: -1i128, den: 2 },
        sy: Rat { num: 1, den: 2 },
        tx: Rat { num: 1, den: 2 },
        ty: Rat { num: -1i128, den: 2 },
    }
}

/// The bottom-left quadrant: mirrored on the y axis.
pub open spec fn bottom_left() -> Xform {
    Xform {
        sx: Rat { num: 1, den: 2 },
        sy: Rat { num: -1i128, den: 2 },
        tx: Rat { num: -1i128, den: 2 },
        ty: Rat { num: 1, den: 2 },
    }
}

/// The bottom-right quadrant: mirrored on both axes.
pub open spec fn bottom_right() -> Xform {
    Xform {
        sx: Rat { num: -1i128, den: 2 },
        sy: Rat { num: -1i128, den: 2 },
        tx: Rat { num: 1, den: 2 },
        ty: Rat { num: 1, den: 2 },
    }
}

/// The four quadrant transforms, in drawing order: top-left, top-right,
/// bottom-left, bottom-right.
pub fn quadrant_transforms() -> (v: Vec<Xform>)
    ensures
        v@.len() == 4,
        v@[0] == top_left(),
        v@[1] == top_right(),
        v@[2] == bottom_left(),
        v@[3] == bottom_right(),
        forall|i: int| 0 <= i < 4 ==> xform_wf(#[trigger] v@[i]),
{
    let mut v: Vec<Xform> = Vec::new();
    v.push(Xform {
        sx: Rat { num: 1, den: 2 },
        sy: Rat { num: 1, den: 2 },
        tx: Rat { num: -1i128, den: 2 },
        ty: Rat { num: -1i128, den: 2 },
    });
    v.push(Xform {
        sx: Rat { num: -1i128, den: 2 },
        sy: Rat { num: 1, den: 2 },
        tx: Rat { num: 1, den: 2 },
        ty: Rat { num: -1i128, den: 2 },
    });
    v.push(Xform {
        sx: Rat { num: 1, den: 2 },
        sy: Rat { num: -1i128, den: 2 },
        tx: Rat { num: -1i128, den: 2 },
        ty: Rat { num: 1, den: 2 },
    });
    v.push(Xform {
        sx: Rat { num: -1i128, den: 2 },
        sy: Rat { num: -1i128, den: 2 },
        tx: Rat { num: 1, den: 2 },
        ty: Rat { num: 1, den: 2 },
    });
    v
}

/// Mirror law: for any local point, the top-right placement is the horizontal
/// mirror (about the canvas center) of the top-left placement; bottom-left is
/// the vertical mirror; bottom-right is both. Since all four quadrants render
/// the same cells from the same model and time, the quadrants' contents are
/// mirror images of the top-left quadrant's.
pub proof fn lemma_quadrant_mirror(p: CxG)
    requires
        0 < p.re.den,
        0 < p.im.den,
    ensures
        rat_eqv(xform_apply(top_right()@, p).re, rat_negate(xform_apply(top_left()@, p).re)),
        rat_eqv(xform_apply(top_right()@, p).im, xform_apply(top_left()@, p).im),
        rat_eqv(xform_apply(bottom_left()@, p).re, xform_apply(top_left()@, p).re),
        rat_eqv(xform_apply(bottom_left()@, p).im, rat_negate(xform_apply(top_left()@, p).im)),
        rat_eqv(xform_apply(bottom_right()@, p).re, rat_negate(xform_apply(top_left()@, p).re)),
        rat_eqv(xform_apply(bottom_right()@, p).im, rat_negate(xform_apply(top_left()@, p).im)),
{
    assert(xform_apply(top_right()@, p).re == rat_negate(xform_apply(top_left()@, p).re));
    assert(xform_apply(top_right()@, p).im == xform_apply(top_left()@, p).im);
    assert(xform_apply(bottom_left()@, p).re == xform_apply(top_left()@, p).re);
    assert(xform_apply(bottom_left()@, p).im == rat_negate(xform_apply(top_left()@, p).im));
    assert(xform_apply(bottom_right()@, p).re == rat_negate(xform_apply(top_left()@, p).re));
    assert(xform_apply(bottom_right()@, p).im == rat_negate(xform_apply(top_left()@, p).im));
}

/// The clock's position as an unbounded fraction, `frame / framerate`.
pub open spec fn clock_t(c: Clock) -> RatG {
    RatG { num: c.frame as int, den: c.framerate as int }
}

/// The normalized time a tick hands to the renderer: the position `t()`
/// divided by the duration once more, the fraction of run progress.
pub fn normalized_time(clock: &Clock) -> (r: Option<Rat>)
    requires
        clock_wf(*clock),
        clock.length@.num > 0,
        (clock.frame as int) < RAT_BOUND as int,
    ensures
        r is Some <==> rat_fits(rat_div(clock_t(*clock), clock.length@)),
        r matches Some(v) ==> v@ == rat_div(clock_t(*clock), clock.length@) && rat_wf(v),
{
    let t = clock.t();
    t.divided(&clock.length)
}

/// While the clock still runs, the normalized time lies in `[0, 1)`.
pub proof fn lemma_normalized_time_range(c: Clock)
    requires
        clock_wf(c),
        c.length@.num > 0,
        c.frame < c.frames,
    ensures
        rat_le(rat_zero(), rat_div(clock_t(c), c.length@)),
        rat_lt(rat_div(clock_t(c), c.length@), rat_one()),
{
    let ln = c.length@.num;
    let ld = c.length@.den;
    let fr = c.frame as int;
    let rate = c.framerate as int;
    let fl = ln / ld;
    assert(fl * ld <= ln) by (nonlinear_arith)
        requires
            fl == ln / ld,
            ld > 0,
            ln >= 0,
    ;
    assert(fr * ld < (fl * rate) * ld) by (nonlinear_arith)
        requires
            fr < fl * rate,
            ld > 0,
    ;
    assert((fl * rate) * ld <= ln * rate) by (nonlinear_arith)
        requires
            fl * ld <= ln,
            rate > 0,
    ;
    assert(0 <= fr * ld) by (nonlinear_arith)
        requires
            0 <= fr,
            0 < ld,
    ;
    assert(0 <= rate * ln) by (nonlinear_arith)
        requires
            0 < rate,
            0 < ln,
    ;
}

/// The byte length of one exported frame: `width * height * 4`, four bytes
/// per pixel; `None` exactly when that does not fit the machine.
pub fn frame_byte_len(width: usize, height: usize) -> (r: Option<usize>)
    ensures
        r is Some <==> width * height * 4 <= usize::MAX,
        r matches Some(v) ==> v == width * height * 4,
{
    proof {
        assert((width as u128) * (height as u128) < 0x1_0000_0000_0000_0000_0000_0000_0000_0000)
            by (nonlinear_arith)
            requires
                (width as u128) < 0x1_0000_0000_0000_0000,
                (height as u128) < 0x1_0000_0000_0000_0000,
        ;
    }
    let p: u128 = (width as u128) * (height as u128);
    if p <= (usize::MAX as u128) / 4 {
        proof {
            assert(p * 4 <= usize::MAX as u128) by (nonlinear_arith)
                requires
                    p <= (usize::MAX as u128) / 4,
            ;
        }
        Some((p * 4) as usize)
    } else {
        proof {
            assert(p * 4 > usize::MAX as u128) by (nonlinear_arith)
                requires
                    p > (usize::MAX as u128) / 4,
            ;
        }
        None
    }
}

} // verus!
