//! Integer geometry on the ground plane.
//!
//! World coordinates are measured in sub-pixels (`SUBPIXELS` per pixel); the
//! ground plane is spanned by `x` and `z`, while `y` is a decorative height.
use vstd::prelude::*;

verus! {

/// Largest magnitude of a coordinate held by a well-formed value.
pub const COORD_LIMIT: i64 = 0x100_0000_0000;

/// World units per screen pixel.
pub const SUBPIXELS: i64 = 16;

pub open spec fn in_bounds(v: int) -> bool {
    -COORD_LIMIT <= v <= COORD_LIMIT
}

/// A point, offset or size on the screen or in an image, in pixels.
#[derive(Clone, Copy, Debug, PartialEq, Eq, Structural)]
pub struct Point2 {
    pub x: i64,
    pub y: i64,
}

impl Point2 {
    pub open spec fn wf(self) -> bool {
        in_bounds(self.x as int) && in_bounds(self.y as int)
    }

    pub fn new(x: i64, y: i64) -> (r: Point2)
        ensures
            r == (Point2 { x, y }),
    {
        Point2 { x, y }
    }
}

/// A point (or displacement) in world space.
#[derive(Clone, Copy, Debug, PartialEq, Eq, Structural)]
pub struct Point3 {
    pub x: i64,
    pub y: i64,
    pub z: i64,
}

impl Point3 {
    pub open spec fn wf(self) -> bool {
        in_bounds(self.x as int) && in_bounds(self.y as int) && in_bounds(self.z as int)
    }

    pub fn new(x: i64, y: i64, z: i64) -> (r: Point3)
        ensures
            r == (Point3 { x, y, z }),
    {
        Point3 { x, y, z }
    }

    pub fn zero() -> (r: Point3)
        ensures
            r == (Point3 { x: 0, y: 0, z: 0 }),
    {
        Point3 { x: 0, y: 0, z: 0 }
    }

    pub open spec fn add_spec(self, o: Point3) -> (int, int, int) {
        (self.x + o.x, self.y + o.y, self.z + o.z)
    }

    /// Component-wise sum.
    pub fn add(self, o: Point3) -> (r: Point3)
        requires
            self.wf(),
            o.wf(),
        ensures
            r.x == self.x + o.x,
            r.y == self.y + o.y,
            r.z == self.z + o.z,
    {
        Point3 { x: self.x + o.x, y: self.y + o.y, z: self.z + o.z }
    }

    /// Component-wise difference `self - o`.
    pub fn sub(self, o: Point3) -> (r: Point3)
        requires
            self.wf(),
            o.wf(),
        ensures
            r.x == self.x - o.x,
            r.y == self.y - o.y,
            r.z == self.z - o.z,
    {
        Point3 { x: self.x - o.x, y: self.y - o.y, z: self.z - o.z }
    }
}

/// Squared distance between two points on the ground plane.
pub open spec fn dist2(a: Point3, b: Point3) -> int {
    (a.x - b.x) * (a.x - b.x) + (a.z - b.z) * (a.z - b.z)
}

/// Squared ground-plane distance, computed without overflow.
pub fn distance_squared(a: Point3, b: Point3) -> (r: i128)
    requires
        a.wf(),
        b.wf(),
    ensures
        r == dist2(a, b),
{
    let dx = a.x as i128 - b.x as i128;
    let dz = a.z as i128 - b.z as i128;
    assert(-0x200_0000_0000 <= dx <= 0x200_0000_0000);
    assert(dx * dx <= 0x200_0000_0000 * 0x200_0000_0000) by (nonlinear_arith)
        requires
            -0x200_0000_0000 <= dx <= 0x200_0000_0000,
    ;
    assert(dz * dz <= 0x200_0000_0000 * 0x200_0000_0000) by (nonlinear_arith)
        requires
            -0x200_0000_0000 <= dz <= 0x200_0000_0000,
    ;
    assert(dx * dx >= 0 && dz * dz >= 0) by (nonlinear_arith);
    dx * dx + dz * dz
}

/// An axis-aligned rectangle on the ground plane: `x` spans `x .. x + w`,
/// and `y` spans the `z` axis from `y` to `y + h`.
#[derive(Clone, Copy, Debug, PartialEq, Eq, Structural)]
pub struct Rect {
    pub x: i64,
    pub y: i64,
    pub w: i64,
    pub h: i64,
}

impl Rect {
    pub open spec fn wf(self) -> bool {
        in_bounds(self.x as int) && in_bounds(self.y as int) && 0 <= self.w <= COORD_LIMIT && 0
            <= self.h <= COORD_LIMIT
    }

    pub fn new(x: i64, y: i64, w: i64, h: i64) -> (r: Rect)
        ensures
            r == (Rect { x, y, w, h }),
    {
        Rect { x, y, w, h }
    }

    /// Whether `p` lies strictly inside the rectangle given by its corner and size
    /// (the boundary is outside).
    pub open spec fn strictly_inside(x: int, y: int, w: int, h: int, p: Point3) -> bool {
        x < p.x < x + w && y < p.z < y + h
    }

    /// The rectangle grown by `r` on every side.
    pub open spec fn inside_expanded(self, p: Point3, r: int) -> bool {
        Self::strictly_inside(self.x - r, self.y - r, self.w + 2 * r, self.h + 2 * r, p)
    }

    pub fn point_intersects(&self, p: Point3) -> (r: bool)
        requires
            self.wf(),
        ensures
            r == Self::strictly_inside(self.x as int, self.y as int, self.w as int, self.h as int, p),
    {
        let right = self.x + self.w;
        let bottom = self.y + self.h;
        p.x > self.x && p.x < right && p.z > self.y && p.z < bottom
    }

    /// Circle test: the rectangle is grown by `radius` along both axes and the
    /// circle's center is tested against it, boundary excluded. A center outside
    /// the grown rectangle never intersects; one strictly inside always does.
    pub fn circle_intersects(&self, p: Point3, radius: i64) -> (r: bool)
        requires
            self.wf(),
            0 <= radius <= COORD_LIMIT,
        ensures
            r == self.inside_expanded(p, radius as int),
    {
        let grown = Rect {
            x: self.x - radius,
            y: self.y - radius,
            w: self.w + 2 * radius,
            h: self.h + 2 * radius,
        };
        let right = grown.x + grown.w;
        let bottom = grown.y + grown.h;
        p.x > grown.x && p.x < right && p.z > grown.y && p.z < bottom
    }
}

/// Whether a circle at `p` touches any of `shapes`.
pub open spec fn hits_any(shapes: Seq<Rect>, p: Point3, radius: int) -> bool {
    exists|i: int| 0 <= i < shapes.len() && #[trigger] shapes[i].inside_expanded(p, radius)
}

pub open spec fn all_wf(shapes: Seq<Rect>) -> bool {
    forall|i: int| 0 <= i < shapes.len() ==> #[trigger] shapes[i].wf()
}

/// Tests a circle at `p` against every shape.
pub fn circle_hits_any(shapes: &Vec<Rect>, p: Point3, radius: i64) -> (r: bool)
    requires
        all_wf(shapes@),
        0 <= radius <= COORD_LIMIT,
    ensures
        r == hits_any(shapes@, p, radius as int),
{
    let mut i: usize = 0;
    while i < shapes.len()
        invariant
            i <= shapes.len(),
            all_wf(shapes@),
            0 <= radius <= COORD_LIMIT,
            forall|j: int| 0 <= j < i ==> !(#[trigger] shapes@[j].inside_expanded(p, radius as int)),
        decreases shapes.len() - i,
    {
        if shapes[i].circle_intersects(p, radius) {
            return true;
        }
        i += 1;
    }
    false
}

} // verus!
