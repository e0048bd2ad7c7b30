//! Points used for helping with coordinates.

use vstd::prelude::*;
use crate::arith::trunc_div;

verus! {

/// True when an integer fits in an `i32`.
pub open spec fn fits_i32(v: int) -> bool {
    i32::MIN <= v <= i32::MAX
}

/// True when Rust's `a / b` on two `i32` values neither divides by zero nor
/// overflows.
pub open spec fn div_ok_i32(a: i32, b: i32) -> bool {
    b != 0 && !(a == i32::MIN && b == -1)
}

/// A point which contains a X,Y coordinate.
#[derive(Copy, Clone, PartialEq, Eq, Structural, Hash, Debug, Default)]
pub struct Point2 {
    /// X value of a point.
    pub x: i32,
    /// Y value of a point.
    pub y: i32,
}

impl Point2 {
    /// Constructs a new point with a X,Y coordinate.
    pub fn new(x: i32, y: i32) -> (p: Point2)
        ensures
            p.x == x,
            p.y == y,
    {
        Point2 { x, y }
    }

    /// The X coordinate of the point.
    pub fn x(&self) -> (r: i32)
        ensures
            r == self.x,
    {
        self.x
    }

    /// The Y coordinate of the point.
    pub fn y(&self) -> (r: i32)
        ensures
            r == self.y,
    {
        self.y
    }
}

impl core::convert::From<(i32, i32)> for Point2 {
    fn from(t: (i32, i32)) -> (p: Point2) {
        Point2 { x: t.0, y: t.1 }
    }
}

impl vstd::std_specs::convert::FromSpecImpl<(i32, i32)> for Point2 {
    open spec fn obeys_from_spec() -> bool {
        true
    }

    open spec fn from_spec(t: (i32, i32)) -> Point2 {
        Point2 { x: t.0, y: t.1 }
    }
}

impl core::convert::From<Point3> for Point2 {
    fn from(p: Point3) -> (r: Point2) {
        Point2 { x: p.x, y: p.y }
    }
}

impl vstd::std_specs::convert::FromSpecImpl<Point3> for Point2 {
    open spec fn obeys_from_spec() -> bool {
        true
    }

    open spec fn from_spec(p: Point3) -> Point2 {
        Point2 { x: p.x, y: p.y }
    }
}

impl core::ops::Add for Point2 {
    type Output = Point2;

    fn add(self, rhs: Point2) -> (r: Point2) {
        Point2 { x: self.x + rhs.x, y: self.y + rhs.y }
    }
}

impl vstd::std_specs::ops::AddSpecImpl for Point2 {
    open spec fn obeys_add_spec() -> bool {
        true
    }

    open spec fn add_req(self, rhs: Point2) -> bool {
        fits_i32(self.x + rhs.x) && fits_i32(self.y + rhs.y)
    }

    open spec fn add_spec(self, rhs: Point2) -> Point2 {
        Point2 { x: (self.x + rhs.x) as i32, y: (self.y + rhs.y) as i32 }
    }
}

impl core::ops::Sub for Point2 {
    type Output = Point2;

    fn sub(self, rhs: Point2) -> (r: Point2) {
        Point2 { x: self.x - rhs.x, y: self.y - rhs.y }
    }
}

impl vstd::std_specs::ops::SubSpecImpl for Point2 {
    open spec fn obeys_sub_spec() -> bool {
        true
    }

    open spec fn sub_req(self, rhs: Point2) -> bool {
        fits_i32(self.x - rhs.x) && fits_i32(self.y - rhs.y)
    }

    open spec fn sub_spec(self, rhs: Point2) -> Point2 {
        Point2 { x: (self.x - rhs.x) as i32, y: (self.y - rhs.y) as i32 }
    }
}

impl core::ops::Mul for Point2 {
    type Output = Point2;

    fn mul(self, rhs: Point2) -> (r: Point2) {
        Point2 { x: self.x * rhs.x, y: self.y * rhs.y }
    }
}

impl vstd::std_specs::ops::MulSpecImpl for Point2 {
    open spec fn obeys_mul_spec() -> bool {
        true
    }

    open spec fn mul_req(self, rhs: Point2) -> bool {
        fits_i32(self.x * rhs.x) && fits_i32(self.y * rhs.y)
    }

    open spec fn mul_spec(self, rhs: Point2) -> Point2 {
        Point2 { x: (self.x * rhs.x) as i32, y: (self.y * rhs.y) as i32 }
    }
}

impl core::ops::Div for Point2 {
    type Output = Point2;

    fn div(self, rhs: Point2) -> (r: Point2) {
        Point2 { x: self.x / rhs.x, y: self.y / rhs.y }
    }
}

impl vstd::std_specs::ops::DivSpecImpl for Point2 {
    open spec fn obeys_div_spec() -> bool {
        true
    }

    open spec fn div_req(self, rhs: Point2) -> bool {
        div_ok_i32(self.x, rhs.x) && div_ok_i32(self.y, rhs.y)
    }

    open spec fn div_spec(self, rhs: Point2) -> Point2 {
        Point2 {
            x: trunc_div(self.x as int, rhs.x as int) as i32,
            y: trunc_div(self.y as int, rhs.y as int) as i32,
        }
    }
}

impl core::ops::Neg for Point2 {
    type Output = Point2;

    fn neg(self) -> (r: Point2) {
        Point2 { x: -self.x, y: -self.y }
    }
}

impl vstd::std_specs::ops::NegSpecImpl for Point2 {
    open spec fn obeys_neg_spec() -> bool {
        true
    }

    open spec fn neg_req(self) -> bool {
        self.x != i32::MIN && self.y != i32::MIN
    }

    open spec fn neg_spec(self) -> Point2 {
        Point2 { x: (-self.x) as i32, y: (-self.y) as i32 }
    }
}

/// A point which contains a X,Y,Z coordinate.
#[derive(Copy, Clone, PartialEq, Eq, Structural, Hash, Debug, Default)]
pub struct Point3 {
    /// X value of a point.
    pub x: i32,
    /// Y value of a point.
    pub y: i32,
    /// Z value of a point.
    pub z: i32,
}

impl Point3 {
    /// The point with the given coordinates.
    pub open spec fn new_spec(x: i32, y: i32, z: i32) -> Point3 {
        Point3 { x, y, z }
    }

    /// Constructs a new point with a X,Y,Z coordinate.
    pub fn new(x: i32, y: i32, z: i32) -> (p: Point3)
        ensures
            p.x == x,
            p.y == y,
            p.z == z,
    {
        Point3 { x, y, z }
    }

    /// The X coordinate of the point.
    pub fn x(&self) -> (r: i32)
        ensures
            r == self.x,
    {
        self.x
    }

    /// The Y coordinate of the point.
    pub fn y(&self) -> (r: i32)
        ensures
            r == self.y,
    {
        self.y
    }

    /// The Z coordinate of the point.
    pub fn z(&self) -> (r: i32)
        ensures
            r == self.z,
    {
        self.z
    }

    /// The X,Y coordinate of the point as a `Point2`.
    pub fn xy(&self) -> (p: Point2)
        ensures
            p.x == self.x,
            p.y == self.y,
    {
        Point2::new(self.x, self.y)
    }
}

impl core::convert::From<(i32, i32, i32)> for Point3 {
    fn from(t: (i32, i32, i32)) -> (p: Point3) {
        Point3 { x: t.0, y: t.1, z: t.2 }
    }
}

impl vstd::std_specs::convert::FromSpecImpl<(i32, i32, i32)> for Point3 {
    open spec fn obeys_from_spec() -> bool {
        true
    }

    open spec fn from_spec(t: (i32, i32, i32)) -> Point3 {
        Point3 { x: t.0, y: t.1, z: t.2 }
    }
}

impl core::ops::Add for Point3 {
    type Output = Point3;

    fn add(self, rhs: Point3) -> (r: Point3) {
        Point3 { x: self.x + rhs.x, y: self.y + rhs.y, z: self.z + rhs.z }
    }
}

impl vstd::std_specs::ops::AddSpecImpl for Point3 {
    open spec fn obeys_add_spec() -> bool {
        true
    }

    open spec fn add_req(self, rhs: Point3) -> bool {
        fits_i32(self.x + rhs.x) && fits_i32(self.y + rhs.y) && fits_i32(self.z + rhs.z)
    }

    open spec fn add_spec(self, rhs: Point3) -> Point3 {
        Point3 {
            x: (self.x + rhs.x) as i32,
            y: (self.y + rhs.y) as i32,
            z: (self.z + rhs.z) as i32,
        }
    }
}

impl core::ops::Sub for Point3 {
    type Output = Point3;

    fn sub(self, rhs: Point3) -> (r: Point3) {
        Point3 { x: self.x - rhs.x, y: self.y - rhs.y, z: self.z - rhs.z }
    }
}

impl vstd::std_specs::ops::SubSpecImpl for Point3 {
    open spec fn obeys_sub_spec() -> bool {
        true
    }

    open spec fn sub_req(self, rhs: Point3) -> bool {
        fits_i32(self.x - rhs.x) && fits_i32(self.y - rhs.y) && fits_i32(self.z - rhs.z)
    }

    open spec fn sub_spec(self, rhs: Point3) -> Point3 {
        Point3 {
            x: (self.x - rhs.x) as i32,
            y: (self.y - rhs.y) as i32,
            z: (self.z - rhs.z) as i32,
        }
    }
}

impl core::ops::Mul for Point3 {
    type Output = Point3;

    fn mul(self, rhs: Point3) -> (r: Point3) {
        Point3 { x: self.x * rhs.x, y: self.y * rhs.y, z: self.z * rhs.z }
    }
}

impl vstd::std_specs::ops::MulSpecImpl for Point3 {
    open spec fn obeys_mul_spec() -> bool {
        true
    }

    open spec fn mul_req(self, rhs: Point3) -> bool {
        fits_i32(self.x * rhs.x) && fits_i32(self.y * rhs.y) && fits_i32(self.z * rhs.z)
    }

    open spec fn mul_spec(self, rhs: Point3) -> Point3 {
        Point3 {
            x: (self.x * rhs.x) as i32,
            y: (self.y * rhs.y) as i32,
            z: (self.z * rhs.z) as i32,
        }
    }
}

impl core::ops::Div for Point3 {
    type Output = Point3;

    fn div(self, rhs: Point3) -> (r: Point3) {
        Point3 { x: self.x / rhs.x, y: self.y / rhs.y, z: self.z / rhs.z }
    }
}

impl vstd::std_specs::ops::DivSpecImpl for Point3 {
    open spec fn obeys_div_spec() -> bool {
        true
    }

    open spec fn div_req(self, rhs: Point3) -> bool {
        div_ok_i32(self.x, rhs.x) && div_ok_i32(self.y, rhs.y) && div_ok_i32(self.z, rhs.z)
    }

    open spec fn div_spec(self, rhs: Point3) -> Point3 {
        Point3 {
            x: trunc_div(self.x as int, rhs.x as int) as i32,
            y: trunc_div(self.y as int, rhs.y as int) as i32,
            z: trunc_div(self.z as int, rhs.z as int) as i32,
        }
    }
}

impl core::ops::Neg for Point3 {
    type Output = Point3;

    fn neg(self) -> (r: Point3) {
        Point3 { x: -self.x, y: -self.y, z: -self.z }
    }
}

impl vstd::std_specs::ops::NegSpecImpl for Point3 {
    open spec fn obeys_neg_spec() -> bool {
        true
    }

    open spec fn neg_req(self) -> bool {
        self.x != i32::MIN && self.y != i32::MIN && self.z != i32::MIN
    }

    open spec fn neg_spec(self) -> Point3 {
        Point3 { x: (-self.x) as i32, y: (-self.y) as i32, z: (-self.z) as i32 }
    }
}

} // verus!
