//! The frame clock of a fixed-duration, fixed-framerate run.
//!
//! The total frame count is fixed at construction as
//! `floor(length) * framerate`: the duration is truncated to whole seconds
//! before the multiplication. That order is deliberate and part of the
//! contract.

use vstd::prelude::*;

use crate::rational::{Rat, RatG, rat_wf, RAT_BOUND};

verus! {

/// Floor of a rational with a positive denominator.
pub open spec fn rat_floor(a: RatG) -> int {
    a.num / a.den
}

/// Tracks elapsed frames for a run of `length` seconds at `framerate`
/// frames per second.
#[derive(Clone, Copy, Debug)]
pub struct Clock {
    /// The duration of the piece, in seconds.
    pub length: Rat,
    /// The current frame of the piece.
    pub frame: usize,
    /// The duration of the piece, in frames.
    pub frames: usize,
    /// The sample rate of the piece, in frames per second.
    pub framerate: usize,
}

/// Well-formedness: a nonnegative duration, a positive representable
/// framerate, and the frame count fixed by the truncate-then-multiply rule.
pub open spec fn clock_wf(c: Clock) -> bool {
    &&& rat_wf(c.length)
    &&& c.length@.num >= 0
    &&& 0 < c.framerate
    &&& (c.framerate as int) < RAT_BOUND as int
    &&& c.frames as int == rat_floor(c.length@) * (c.framerate as int)
}

impl Clock {
    /// Create a clock at frame zero. The frame count is
    /// `floor(length) * framerate`, truncating the duration to whole seconds
    /// first.
    pub fn new(length: Rat, framerate: usize) -> (c: Clock)
        requires
            rat_wf(length),
            length@.num >= 0,
            0 < framerate,
            (framerate as int) < RAT_BOUND as int,
            rat_floor(length@) * (framerate as int) <= usize::MAX as int,
        ensures
            c.length == length,
            c.frame == 0,
            c.framerate == framerate,
            c.frames as int == rat_floor(length@) * (framerate as int),
            clock_wf(c),
    {
        let num_u: u128 = length.num as u128;
        let den_u: u128 = length.den as u128;
        let whole: u128 = num_u / den_u;
        proof {
            assert(whole as int == rat_floor(length@));
            assert(whole <= num_u) by (nonlinear_arith)
                requires
                    den_u >= 1,
                    whole == num_u / den_u,
            ;
            assert(whole * (framerate as u128) < 0x4000_0000_0000_0000_0000_0000_0000_0000u128)
                by (nonlinear_arith)
                requires
                    whole < 0x8000_0000_0000_0000u128,
                    (framerate as u128) < 0x8000_0000_0000_0000u128,
            ;
        }
        let total: u128 = whole * (framerate as u128);
        Clock { length, frame: 0, frames: total as usize, framerate }
    }

    /// True iff the current position is before the end of the run.
    pub fn is_some(&self) -> (r: bool)
        ensures
            r == (self.frame < self.frames),
    {
        self.frame < self.frames
    }

    /// True iff the current position is at or past the end of the run;
    /// exactly one of `is_some` and `is_none` holds.
    pub fn is_none(&self) -> (r: bool)
        ensures
            r == (self.frame >= self.frames),
    {
        self.frame >= self.frames
    }

    /// The current position in time: exactly `frame / framerate` seconds.
    pub fn t(&self) -> (r: Rat)
        requires
            clock_wf(*self),
            (self.frame as int) < RAT_BOUND as int,
        ensures
            r@.num == self.frame as int,
            r@.den == self.framerate as int,
            rat_wf(r),
    {
        Rat { num: self.frame as i128, den: self.framerate as i128 }
    }

    /// The duration of one frame: exactly `1 / framerate` seconds, constant
    /// for the run.
    pub fn dt(&self) -> (r: Rat)
        requires
            clock_wf(*self),
        ensures
            r@.num == 1,
            r@.den == self.framerate as int,
            rat_wf(r),
    {
        Rat { num: 1, den: self.framerate as i128 }
    }

    /// The total duration, unchanged.
    pub fn len(&self) -> (r: Rat)
        ensures
            r == self.length,
    {
        self.length
    }

    /// Advance by exactly one frame; nothing else changes.
    pub fn tick(&mut self)
        requires
            old(self).frame < usize::MAX,
        ensures
            final(self).frame == old(self).frame + 1,
            final(self).length == old(self).length,
            final(self).frames == old(self).frames,
            final(self).framerate == old(self).framerate,
    {
        self.frame = self.frame + 1;
    }
}

} // verus!
