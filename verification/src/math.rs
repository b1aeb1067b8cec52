//! Fixed-point world-space vectors and distance comparisons.
//!
//! One world-space distance unit is 1000 coordinate units, so the melee
//! attack range of one unit is 1000 and the spitter attack range of ten
//! units is 10000. Range checks compare squared distances, which keeps
//! the boundary classification exact: a distance equal to the range is in
//! range, a strictly greater distance is out of range.

use vstd::prelude::*;

verus! {

/// Every stored coordinate is bounded by this, so that squared distances
/// fit comfortably in an `i128`.
pub const COORD_LIMIT: i64 = 1_000_000_000;

/// A world-space position in fixed-point coordinates.
#[derive(Clone, Copy, PartialEq, Eq, Structural, Debug)]
pub struct Vec3 {
    pub x: i64,
    pub y: i64,
    pub z: i64,
}

impl Vec3 {
    /// All three coordinates within `COORD_LIMIT`.
    pub open spec fn in_bounds(self) -> bool {
        -COORD_LIMIT <= self.x <= COORD_LIMIT
            && -COORD_LIMIT <= self.y <= COORD_LIMIT
            && -COORD_LIMIT <= self.z <= COORD_LIMIT
    }

    pub fn new(x: i64, y: i64, z: i64) -> (v: Vec3)
        ensures
            v == (Vec3 { x, y, z }),
    {
        Vec3 { x, y, z }
    }
}

/// The mathematical squared distance between two positions.
pub open spec fn dist_sq(a: Vec3, b: Vec3) -> int {
    (a.x - b.x) * (a.x - b.x) + (a.y - b.y) * (a.y - b.y) + (a.z - b.z) * (a.z - b.z)
}

/// Computes the squared distance between two bounded positions.
pub fn distance_squared(a: Vec3, b: Vec3) -> (d: i128)
    requires
        a.in_bounds(),
        b.in_bounds(),
    ensures
        d == dist_sq(a, b),
{
    let dx: i128 = a.x as i128 - b.x as i128;
    let dy: i128 = a.y as i128 - b.y as i128;
    let dz: i128 = a.z as i128 - b.z as i128;
    proof {
        assert(dx * dx <= 4_000_000_000_000_000_000 && dx * dx >= 0) by (nonlinear_arith)
            requires
                -2_000_000_000 <= dx <= 2_000_000_000,
        ;
        assert(dy * dy <= 4_000_000_000_000_000_000 && dy * dy >= 0) by (nonlinear_arith)
            requires
                -2_000_000_000 <= dy <= 2_000_000_000,
        ;
        assert(dz * dz <= 4_000_000_000_000_000_000 && dz * dz >= 0) by (nonlinear_arith)
            requires
                -2_000_000_000 <= dz <= 2_000_000_000,
        ;
    }
    dx * dx + dy * dy + dz * dz
}

/// Whether `b` is within `range` (inclusive) of `a`: true exactly when the
/// squared distance does not exceed the squared range.
pub fn within_range(a: Vec3, b: Vec3, range: i64) -> (r: bool)
    requires
        a.in_bounds(),
        b.in_bounds(),
        0 <= range <= COORD_LIMIT,
    ensures
        r == (dist_sq(a, b) <= range * range),
{
    let d = distance_squared(a, b);
    let rw: i128 = range as i128;
    proof {
        assert(rw * rw <= 1_000_000_000_000_000_000 && rw * rw >= 0) by (nonlinear_arith)
            requires
                0 <= rw <= 1_000_000_000,
        ;
    }
    let r2: i128 = rw * rw;
    d <= r2
}

} // verus!
