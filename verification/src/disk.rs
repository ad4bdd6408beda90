//! Circle primitive: the static arena boundary and a particle's visual
//! footprint.

use vstd::prelude::*;
use crate::vector::Vector2;

verus! {

/// Magnitude bound on disk centers and radii; keeps every product of the
/// integrator and the rasterizer within `i128`.
pub const DISK_LIMIT: i64 = 1_000_000_000;

/// Magnitude bound on point coordinates accepted by the hit test.
pub const POINT_LIMIT: i64 = 1_000_000_000_000;

/// A circle in fixed-point world coordinates, with its squared radius
/// cached for hit testing.
#[derive(Clone, Copy, PartialEq, Eq, Structural, Debug)]
pub struct Disk {
    pub center: Vector2,
    pub radius: i64,
    pub radius_squared: i128,
}

impl Disk {
    /// Well-formed: bounded center and nonnegative bounded radius, with the
    /// cached square consistent.
    pub open spec fn wf(self) -> bool {
        &&& 0 <= self.radius <= DISK_LIMIT
        &&& -DISK_LIMIT <= self.center.x <= DISK_LIMIT
        &&& -DISK_LIMIT <= self.center.y <= DISK_LIMIT
        &&& self.radius_squared == self.radius * self.radius
    }

    /// Whether the point lies strictly inside the disk.
    pub open spec fn contains(self, x: int, y: int) -> bool {
        (x - self.center.x) * (x - self.center.x) + (y - self.center.y) * (y - self.center.y)
            < self.radius_squared
    }

    pub fn new(center: Vector2, radius: i64) -> (r: Disk)
        requires
            0 <= radius <= DISK_LIMIT,
            -DISK_LIMIT <= center.x <= DISK_LIMIT,
            -DISK_LIMIT <= center.y <= DISK_LIMIT,
        ensures
            r.wf(),
            r.center == center,
            r.radius == radius,
    {
        proof {
            assert(0 <= (radius as int) * (radius as int) <= 1_000_000_000_000_000_000)
                by (nonlinear_arith)
                requires
                    0 <= radius <= 1_000_000_000,
            ;
        }
        Disk { center, radius, radius_squared: (radius as i128) * (radius as i128) }
    }

    /// Exact squared distance from a point to the center.
    pub fn distance_squared_to(&self, x: i64, y: i64) -> (r: i128)
        requires
            self.wf(),
            -POINT_LIMIT <= x <= POINT_LIMIT,
            -POINT_LIMIT <= y <= POINT_LIMIT,
        ensures
            r == (x - self.center.x) * (x - self.center.x) + (y - self.center.y) * (y
                - self.center.y),
    {
        let dx = (x as i128) - (self.center.x as i128);
        let dy = (y as i128) - (self.center.y as i128);
        proof {
            let big: int = 5_000_000_000_000_000_000_000_000;
            assert(0 <= dx * dx <= big && 0 <= dy * dy <= big) by (nonlinear_arith)
                requires
                    -2_000_000_000_000 <= dx <= 2_000_000_000_000,
                    -2_000_000_000_000 <= dy <= 2_000_000_000_000,
                    big == 5_000_000_000_000_000_000_000_000,
            ;
        }
        dx * dx + dy * dy
    }

    /// Strict hit test against the cached squared radius.
    pub fn contains_point(&self, x: i64, y: i64) -> (r: bool)
        requires
            self.wf(),
            -POINT_LIMIT <= x <= POINT_LIMIT,
            -POINT_LIMIT <= y <= POINT_LIMIT,
        ensures
            r == self.contains(x as int, y as int),
    {
        self.distance_squared_to(x, y) < self.radius_squared
    }
}

} // verus!
