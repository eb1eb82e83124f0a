//! Integer points, extents and axis-aligned bounds, plus the small
//! three-component vector helpers used by the triangle intersection test.
use vstd::prelude::*;

verus! {

/// A point with unsigned integer coordinates (a pixel position).
#[derive(Debug, Clone, Copy, PartialEq, Eq, Structural)]
pub struct Point2u {
    pub x: u32,
    pub y: u32,
}

/// An unsigned integer extent (a width and a height).
#[derive(Debug, Clone, Copy, PartialEq, Eq, Structural)]
pub struct Vector2u {
    pub x: u32,
    pub y: u32,
}

impl Point2u {
    pub fn new(x: u32, y: u32) -> (p: Point2u)
        ensures
            p.x == x,
            p.y == y,
    {
        Point2u { x, y }
    }
}

impl Vector2u {
    pub fn new(x: u32, y: u32) -> (v: Vector2u)
        ensures
            v.x == x,
            v.y == y,
    {
        Vector2u { x, y }
    }
}

/// A half-open rectangle of pixels: `p_min` is included, `p_max` is not.
#[derive(Debug, Clone, Copy, PartialEq, Eq, Structural)]
pub struct Bounds {
    pub p_min: Point2u,
    pub p_max: Point2u,
}

impl Bounds {
    /// The corners are ordered, so the extent does not underflow.
    pub open spec fn wf(self) -> bool {
        self.p_min.x <= self.p_max.x && self.p_min.y <= self.p_max.y
    }

    pub open spec fn width(self) -> int {
        self.p_max.x - self.p_min.x
    }

    pub open spec fn height(self) -> int {
        self.p_max.y - self.p_min.y
    }

    /// Number of pixels covered (zero for degenerate bounds).
    pub open spec fn spec_area(self) -> int {
        self.width() * self.height()
    }

    /// Whether the pixel `(x, y)` lies inside the half-open rectangle.
    pub open spec fn contains(self, x: int, y: int) -> bool {
        self.p_min.x <= x < self.p_max.x && self.p_min.y <= y < self.p_max.y
    }

    /// The extent `p_max - p_min`.
    pub fn vector(&self) -> (v: Vector2u)
        requires
            self.wf(),
        ensures
            v.x == self.width(),
            v.y == self.height(),
    {
        Vector2u { x: self.p_max.x - self.p_min.x, y: self.p_max.y - self.p_min.y }
    }

    /// The number of pixels covered, `width * height`.
    pub fn area(&self) -> (a: u32)
        requires
            self.wf(),
            self.spec_area() <= u32::MAX,
        ensures
            a == self.spec_area(),
    {
        let v = self.vector();
        v.x * v.y
    }
}

/// A three-component vector over any copyable component type.
#[derive(Debug, Clone, Copy, PartialEq, Eq)]
pub struct Vector3<T> {
    pub x: T,
    pub y: T,
    pub z: T,
}

impl<T: Copy> Vector3<T> {
    pub fn new(x: T, y: T, z: T) -> (v: Vector3<T>)
        ensures
            v.x == x,
            v.y == y,
            v.z == z,
    {
        Vector3 { x, y, z }
    }

    /// The component at axis `i` (0 = x, 1 = y, 2 = z).
    pub open spec fn at(self, i: int) -> T {
        if i == 0 {
            self.x
        } else if i == 1 {
            self.y
        } else {
            self.z
        }
    }

    /// The component at axis `i`; there is no fourth axis.
    pub fn get(&self, i: usize) -> (c: T)
        requires
            i < 3,
        ensures
            c == self.at(i as int),
    {
        if i == 0 {
            self.x
        } else if i == 1 {
            self.y
        } else {
            self.z
        }
    }
}

/// The axis holding the largest component; where several axes share the
/// largest value, the last of them is chosen.
pub fn max_dimension_vec_3(v: Vector3<i64>) -> (d: usize)
    ensures
        d < 3,
        forall|j: int| 0 <= j < 3 ==> v.at(j) <= v.at(d as int),
        forall|j: int| d < j < 3 ==> v.at(j) < v.at(d as int),
{
    if v.x > v.y {
        if v.x > v.z {
            0
        } else {
            2
        }
    } else if v.y > v.z {
        1
    } else {
        2
    }
}

/// Reorders the components: the result holds `v[x]`, `v[y]`, `v[z]`.
pub fn permute<T: Copy>(v: Vector3<T>, x: usize, y: usize, z: usize) -> (r: Vector3<T>)
    requires
        x < 3,
        y < 3,
        z < 3,
    ensures
        r.x == v.at(x as int),
        r.y == v.at(y as int),
        r.z == v.at(z as int),
{
    Vector3 { x: v.get(x), y: v.get(y), z: v.get(z) }
}

} // verus!
