//! The Commutation Lab's bouncing ball: a fixed-point (1/16 px) position and
//! velocity that reflect off the display border.

use vstd::prelude::*;

verus! {

/// A bouncing ball in fixed point (1/16 px).
#[derive(Clone, Copy, Debug)]
pub struct Ball {
    pub x: i32,
    pub y: i32,
    pub vx: i32,
    pub vy: i32,
}

/// Ball radius in pixels.
pub const R: i32 = 5;
/// Least x (fixed point): `(R + 1) << 4`, inset by the radius and the 1 px
/// border.
pub const XMIN: i32 = 96;
/// Greatest x (fixed point): `(128 - 1 - R) << 4`.
pub const XMAX: i32 = 1952;
/// Least y (fixed point): `(R + 1) << 4`.
pub const YMIN: i32 = 96;
/// Greatest y (fixed point): `(64 - 1 - R) << 4`.
pub const YMAX: i32 = 928;
/// Largest speed component the step arithmetic accepts (`1 << 20`).
pub const VMAX: i32 = 1048576;

/// `v` reflected toward `+` (its magnitude, positive).
pub open spec fn abs(v: int) -> int {
    if v < 0 { -v } else { v }
}

/// One axis of a step: advance `p` by `v`; at or past the low wall stop on it
/// moving up, at or past the high wall stop on it moving down.
pub open spec fn axis_step(p: int, v: int, lo: int, hi: int) -> (int, int) {
    let n = p + v;
    if n <= lo {
        (lo, abs(v))
    } else if n >= hi {
        (hi, -abs(v))
    } else {
        (n, v)
    }
}

impl Ball {
    /// Inside the walls, with speeds small enough for the fixed-point step.
    pub open spec fn wf(&self) -> bool {
        &&& XMIN <= self.x <= XMAX
        &&& YMIN <= self.y <= YMAX
        &&& -VMAX <= self.vx <= VMAX
        &&& -VMAX <= self.vy <= VMAX
    }

    /// The ball at (40, 24) px moving by (37, 23)/16 px per step.
    pub fn new() -> (r: Ball)
        ensures
            r.x == 40 * 16 && r.y == 24 * 16 && r.vx == 37 && r.vy == 23,
            r.wf(),
    {
        Ball { x: 640, y: 384, vx: 37, vy: 23 }
    }

    /// Advance one frame, reflecting off the walls.
    pub fn step(&mut self)
        requires
            old(self).wf(),
        ensures
            (final(self).x as int, final(self).vx as int) == axis_step(
                old(self).x as int,
                old(self).vx as int,
                XMIN as int,
                XMAX as int,
            ),
            (final(self).y as int, final(self).vy as int) == axis_step(
                old(self).y as int,
                old(self).vy as int,
                YMIN as int,
                YMAX as int,
            ),
            final(self).wf(),
    {
        self.x += self.vx;
        self.y += self.vy;
        if self.x <= XMIN {
            self.x = XMIN;
            self.vx = if self.vx < 0 { -self.vx } else { self.vx };
        } else if self.x >= XMAX {
            self.x = XMAX;
            self.vx = -(if self.vx < 0 { -self.vx } else { self.vx });
        }
        if self.y <= YMIN {
            self.y = YMIN;
            self.vy = if self.vy < 0 { -self.vy } else { self.vy };
        } else if self.y >= YMAX {
            self.y = YMAX;
            self.vy = -(if self.vy < 0 { -self.vy } else { self.vy });
        }
    }
}

/// The ball never leaves the display and never changes speed: every step
/// keeps it within the walls and preserves each speed magnitude.
pub proof fn lemma_ball_stays_inside(b: Ball, n: Ball)
    requires
        b.wf(),
        (n.x as int, n.vx as int) == axis_step(b.x as int, b.vx as int, XMIN as int, XMAX as int),
        (n.y as int, n.vy as int) == axis_step(b.y as int, b.vy as int, YMIN as int, YMAX as int),
    ensures
        n.wf(),
        abs(n.vx as int) == abs(b.vx as int),
        abs(n.vy as int) == abs(b.vy as int),
{
}

} // verus!
