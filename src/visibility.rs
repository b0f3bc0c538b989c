//! Whether a light's reach can show on screen at all.
use vstd::prelude::*;
use crate::grid::{WorldPoint, WORLD_LIMIT};

verus! {

/// `v` moved into `[lo, hi]`.
pub open spec fn clamp(v: int, lo: int, hi: int) -> int {
    if v < lo {
        lo
    } else if v > hi {
        hi
    } else {
        v
    }
}

pub open spec fn min(a: int, b: int) -> int {
    if a <= b {
        a
    } else {
        b
    }
}

pub open spec fn max(a: int, b: int) -> int {
    if a >= b {
        a
    } else {
        b
    }
}

/// The circle of radius `r` around `center` meets the rectangle with
/// opposite corners `a` and `b`: the point of the rectangle nearest to the
/// centre lies within `r` of it.
pub open spec fn circle_meets_rect(r: int, center: WorldPoint, a: WorldPoint, b: WorldPoint) -> bool {
    let tx = clamp(center.x as int, min(a.x as int, b.x as int), max(a.x as int, b.x as int));
    let ty = clamp(center.y as int, min(a.y as int, b.y as int), max(a.y as int, b.y as int));
    (center.x - tx) * (center.x - tx) + (center.y - ty) * (center.y - ty) <= r * r
}

/// Whether the circle of radius `r` around `center` overlaps the rectangle
/// with opposite corners `corner_a` and `corner_b`; touching counts.
pub fn circle_intersect_rect(r: i64, center: WorldPoint, corner_a: WorldPoint, corner_b: WorldPoint) -> (res: bool)
    requires
        0 <= r <= WORLD_LIMIT,
        center.in_world(),
        corner_a.in_world(),
        corner_b.in_world(),
    ensures
        res == circle_meets_rect(r as int, center, corner_a, corner_b),
{
    let min_x = if corner_a.x <= corner_b.x { corner_a.x } else { corner_b.x };
    let max_x = if corner_a.x >= corner_b.x { corner_a.x } else { corner_b.x };
    let min_y = if corner_a.y <= corner_b.y { corner_a.y } else { corner_b.y };
    let max_y = if corner_a.y >= corner_b.y { corner_a.y } else { corner_b.y };
    let mut test_x = center.x;
    let mut test_y = center.y;
    if center.x < min_x {
        test_x = min_x;
    } else if center.x > max_x {
        test_x = max_x;
    }
    if center.y < min_y {
        test_y = min_y;
    } else if center.y > max_y {
        test_y = max_y;
    }
    let dist_x = (center.x - test_x) as i128;
    let dist_y = (center.y - test_y) as i128;
    let rr = r as i128;
    proof {
        assert(0 <= dist_x * dist_x <= 4 * WORLD_LIMIT * WORLD_LIMIT) by (nonlinear_arith)
            requires -2 * WORLD_LIMIT <= dist_x <= 2 * WORLD_LIMIT;
        assert(0 <= dist_y * dist_y <= 4 * WORLD_LIMIT * WORLD_LIMIT) by (nonlinear_arith)
            requires -2 * WORLD_LIMIT <= dist_y <= 2 * WORLD_LIMIT;
        assert(0 <= rr * rr <= WORLD_LIMIT * WORLD_LIMIT) by (nonlinear_arith)
            requires 0 <= rr <= WORLD_LIMIT;
    }
    dist_x * dist_x + dist_y * dist_y <= rr * rr
}

/// Whether something of radius `radius` is on screen.
pub struct VisChecker {
    pub radius: i64,
    pub visible: bool,
}

impl VisChecker {
    /// Updates `visible` for an object at `center`, against the screen
    /// rectangle with opposite corners `corner_a` and `corner_b`.
    pub fn check(&mut self, center: WorldPoint, corner_a: WorldPoint, corner_b: WorldPoint)
        requires
            0 <= old(self).radius <= WORLD_LIMIT,
            center.in_world(),
            corner_a.in_world(),
            corner_b.in_world(),
        ensures
            final(self).radius == old(self).radius,
            final(self).visible == circle_meets_rect(old(self).radius as int, center, corner_a, corner_b),
    {
        self.visible = circle_intersect_rect(self.radius, center, corner_a, corner_b);
    }
}

} // verus!
