//! Dimension helpers with encoding and decoding to and from indexes.

use vstd::prelude::*;
use crate::arith::{
    trunc_div, trunc_rem, wrap_i32, wrap_u32, wrap_usize, u32_as_i32, i32_as_usize, usize_as_i32,
    usize_as_u32,
};
use crate::point::{Point2, Point3, fits_i32, div_ok_i32};

verus! {

/// The kinds of errors that can occur for a `DimensionError`.
#[derive(Copy, Clone, PartialEq, Eq, Structural, Hash, Debug)]
pub enum ErrorKind {
    /// If the coordinate or index is out of bounds.
    OutOfBounds,
    /// The minimum constraint is larger than the maximum.
    MinLargerThanMax(i32, i32),
}

/// An error type for dimensions which indicates that an error has occurred.
#[derive(Copy, Clone, PartialEq, Eq, Structural, Hash, Debug)]
pub struct DimensionError {
    kind: ErrorKind,
}

impl DimensionError {
    /// Creates a new `DimensionError`.
    pub fn new(kind: ErrorKind) -> (e: DimensionError)
        ensures
            e.spec_kind() == kind,
    {
        DimensionError { kind }
    }

    /// The kind that the error was made with.
    pub closed spec fn spec_kind(self) -> ErrorKind {
        self.kind
    }

    /// Returns the underlying error kind.
    pub fn kind(&self) -> (k: ErrorKind)
        ensures
            k == self.spec_kind(),
    {
        self.kind
    }
}

/// A dimension result which is of the type `Result<T, DimensionError>`.
pub type DimensionResult<T> = Result<T, DimensionError>;

/// Rust's `(-(w as i32)) / 2`.
pub open spec fn neg_half(w: u32) -> int {
    trunc_div(-wrap_i32(w as int), 2)
}

/// Rust's `(w as i32) / 2`.
pub open spec fn half(w: u32) -> int {
    trunc_div(wrap_i32(w as int), 2)
}

/// Dimensions of the 2nd kind.
#[derive(Copy, Clone, PartialEq, Eq, Structural, Hash, Debug)]
pub struct Dimension2 {
    /// The width of this dimension.
    pub width: u32,
    /// The height of this dimension.
    pub height: u32,
}

impl Dimension2 {
    /// The dimension with the given sides.
    pub open spec fn new_spec(width: u32, height: u32) -> Dimension2 {
        Dimension2 { width, height }
    }

    /// The area as a mathematical integer.
    pub open spec fn spec_area(self) -> int {
        self.width * self.height
    }

    /// True when the point lies outside the bounds that `check_point`
    /// tests.
    pub open spec fn spec_out_of_bounds(self, p: Point2) -> bool {
        ||| p.x > half(self.width)
        ||| p.y > half(self.height)
        ||| p.x < neg_half(self.width)
        ||| p.y < neg_half(self.height)
    }

    /// True when `check_point` runs to its end on the point: the minimum
    /// of a side of length `2^31` is not representable and is only computed
    /// when the tests before it passed.
    pub open spec fn check_point_defined(self, p: Point2) -> bool {
        ||| p.x > half(self.width)
        ||| p.y > half(self.height)
        ||| (self.width != 0x8000_0000 && (p.x < neg_half(self.width) || self.height
            != 0x8000_0000))
    }

    /// The index that `encode_point_unchecked` computes, before it is
    /// converted to `usize`.
    pub open spec fn spec_encode(self, p: Point2) -> int {
        p.y * wrap_i32(self.width as int) + p.x
    }

    /// True when `encode_point_unchecked` does not overflow.
    pub open spec fn encode_defined(self, p: Point2) -> bool {
        fits_i32(p.y * wrap_i32(self.width as int)) && fits_i32(self.spec_encode(p))
    }

    /// True when `decode_point_unchecked` neither divides by zero nor
    /// overflows.
    pub open spec fn decode_defined(self, index: usize) -> bool {
        let i = wrap_i32(index as int);
        div_ok_i32(i as i32, wrap_i32(self.width as int) as i32)
    }

    /// The point that `decode_point_unchecked` computes: the row is the
    /// quotient by the width and the column the remainder.
    pub open spec fn spec_decode(self, index: usize) -> Point2 {
        let i = wrap_i32(index as int);
        Point2 {
            x: trunc_rem(i, wrap_i32(self.width as int)) as i32,
            y: trunc_div(i, wrap_i32(self.width as int)) as i32,
        }
    }

    /// Constructs a new 2nd dimension.
    pub fn new(width: u32, height: u32) -> (d: Dimension2)
        ensures
            d.width == width,
            d.height == height,
    {
        Dimension2 { width, height }
    }

    /// The total area of the dimension.
    pub fn area(&self) -> (a: u32)
        requires
            self.spec_area() <= u32::MAX,
        ensures
            a == self.spec_area(),
    {
        self.width * self.height
    }

    /// The minimum X value of this dimension.
    pub fn x_min(&self) -> (r: i32)
        requires
            self.width != 0x8000_0000,
        ensures
            r == neg_half(self.width),
    {
        let w = u32_as_i32(self.width);
        -w / 2
    }

    /// The minimum Y value of this dimension.
    pub fn y_min(&self) -> (r: i32)
        requires
            self.height != 0x8000_0000,
        ensures
            r == neg_half(self.height),
    {
        let h = u32_as_i32(self.height);
        -h / 2
    }

    /// The maximum X value of this dimension.
    pub fn x_max(&self) -> (r: i32)
        ensures
            r == half(self.width),
    {
        u32_as_i32(self.width) / 2
    }

    /// The maximum Y value of this dimension.
    pub fn y_max(&self) -> (r: i32)
        ensures
            r == half(self.height),
    {
        u32_as_i32(self.height) / 2
    }

    /// Returns the center of the dimension as a point.
    pub fn center(&self) -> (p: Point2)
        ensures
            p.x == self.width / 2,
            p.y == self.height / 2,
    {
        Point2::new((self.width / 2) as i32, (self.height / 2) as i32)
    }

    /// Checks if a coordinate is valid and inbounds.
    ///
    /// # Errors
    ///
    /// If the point does not exist in the dimensions, an error is returned.
    pub fn check_point(&self, point: Point2) -> (r: DimensionResult<()>)
        requires
            self.check_point_defined(point),
        ensures
            r is Err <==> self.spec_out_of_bounds(point),
            r matches Err(e) ==> e.spec_kind() == ErrorKind::OutOfBounds,
    {
        if point.x > self.x_max() || point.y > self.y_max() || point.x < self.x_min()
            || point.y < self.y_min() {
            Err(DimensionError::new(ErrorKind::OutOfBounds))
        } else {
            Ok(())
        }
    }

    /// Checks if an index is valid and inbounds.
    ///
    /// # Errors
    ///
    /// If the index is not one of the `width * height` cells, an error is
    /// returned.
    pub fn check_index(&self, index: usize) -> (r: DimensionResult<()>)
        requires
            self.spec_area() <= u32::MAX,
        ensures
            r is Err <==> index >= self.spec_area(),
            r matches Err(e) ==> e.spec_kind() == ErrorKind::OutOfBounds,
    {
        if index >= (self.width * self.height) as usize {
            Err(DimensionError::new(ErrorKind::OutOfBounds))
        } else {
            Ok(())
        }
    }

    /// Encodes a coordinate and returns an index value, unchecked.
    pub fn encode_point_unchecked(&self, point: Point2) -> (i: usize)
        requires
            self.encode_defined(point),
        ensures
            i == wrap_usize(self.spec_encode(point)),
    {
        let w = u32_as_i32(self.width);
        i32_as_usize((point.y * w) + point.x)
    }

    /// Encodes a coordinate and returns an index value.
    ///
    /// # Errors
    ///
    /// If the point does not exist in the dimensions, an error is returned.
    pub fn encode_point(&self, point: Point2) -> (r: DimensionResult<usize>)
        requires
            self.check_point_defined(point),
            !self.spec_out_of_bounds(point) ==> self.encode_defined(point),
        ensures
            r is Err <==> self.spec_out_of_bounds(point),
            r matches Err(e) ==> e.spec_kind() == ErrorKind::OutOfBounds,
            r matches Ok(i) ==> i == wrap_usize(self.spec_encode(point)),
    {
        match self.check_point(point) {
            Err(e) => Err(e),
            Ok(()) => Ok(self.encode_point_unchecked(point)),
        }
    }

    /// Decodes an index value and returns a coordinate, unchecked.
    pub fn decode_point_unchecked(&self, index: usize) -> (p: Point2)
        requires
            self.decode_defined(index),
        ensures
            p == self.spec_decode(index),
    {
        let i = usize_as_i32(index);
        let y = i / u32_as_i32(self.width);
        let x = i % u32_as_i32(self.width);
        Point2::new(x, y)
    }

    /// Decodes an index value and returns a coordinate.
    ///
    /// # Errors
    ///
    /// If the index is not one of the `width * height` cells, an error is
    /// returned.
    pub fn decode_point(&self, index: usize) -> (r: DimensionResult<Point2>)
        requires
            self.spec_area() <= u32::MAX,
            index < self.spec_area() ==> self.decode_defined(index),
        ensures
            r is Err <==> index >= self.spec_area(),
            r matches Err(e) ==> e.spec_kind() == ErrorKind::OutOfBounds,
            r matches Ok(p) ==> p == self.spec_decode(index),
    {
        match self.check_index(index) {
            Err(e) => Err(e),
            Ok(()) => Ok(self.decode_point_unchecked(index)),
        }
    }
}

impl core::convert::From<(u32, u32)> for Dimension2 {
    fn from(t: (u32, u32)) -> (d: Dimension2) {
        Dimension2 { width: t.0, height: t.1 }
    }
}

impl vstd::std_specs::convert::FromSpecImpl<(u32, u32)> for Dimension2 {
    open spec fn obeys_from_spec() -> bool {
        true
    }

    open spec fn from_spec(t: (u32, u32)) -> Dimension2 {
        Dimension2 { width: t.0, height: t.1 }
    }
}

impl core::convert::From<Dimension3> for Dimension2 {
    fn from(d: Dimension3) -> (r: Dimension2) {
        Dimension2 { width: d.width, height: d.height }
    }
}

impl vstd::std_specs::convert::FromSpecImpl<Dimension3> for Dimension2 {
    open spec fn obeys_from_spec() -> bool {
        true
    }

    open spec fn from_spec(d: Dimension3) -> Dimension2 {
        Dimension2 { width: d.width, height: d.height }
    }
}

impl core::ops::Add for Dimension2 {
    type Output = Dimension2;

    fn add(self, rhs: Dimension2) -> (r: Dimension2) {
        Dimension2::new(self.width + rhs.width, self.height + rhs.height)
    }
}

impl vstd::std_specs::ops::AddSpecImpl for Dimension2 {
    open spec fn obeys_add_spec() -> bool {
        true
    }

    open spec fn add_req(self, rhs: Dimension2) -> bool {
        self.width + rhs.width <= u32::MAX && self.height + rhs.height <= u32::MAX
    }

    open spec fn add_spec(self, rhs: Dimension2) -> Dimension2 {
        Dimension2 {
            width: (self.width + rhs.width) as u32,
            height: (self.height + rhs.height) as u32,
        }
    }
}

impl core::ops::Sub for Dimension2 {
    type Output = Dimension2;

    fn sub(self, rhs: Dimension2) -> (r: Dimension2) {
        Dimension2::new(self.width - rhs.width, self.height - rhs.height)
    }
}

impl vstd::std_specs::ops::SubSpecImpl for Dimension2 {
    open spec fn obeys_sub_spec() -> bool {
        true
    }

    open spec fn sub_req(self, rhs: Dimension2) -> bool {
        self.width >= rhs.width && self.height >= rhs.height
    }

    open spec fn sub_spec(self, rhs: Dimension2) -> Dimension2 {
        Dimension2 {
            width: (self.width - rhs.width) as u32,
            height: (self.height - rhs.height) as u32,
        }
    }
}

impl core::ops::Mul for Dimension2 {
    type Output = Dimension2;

    fn mul(self, rhs: Dimension2) -> (r: Dimension2) {
        Dimension2::new(self.width * rhs.width, self.height * rhs.height)
    }
}

impl vstd::std_specs::ops::MulSpecImpl for Dimension2 {
    open spec fn obeys_mul_spec() -> bool {
        true
    }

    open spec fn mul_req(self, rhs: Dimension2) -> bool {
        self.width * rhs.width <= u32::MAX && self.height * rhs.height <= u32::MAX
    }

    open spec fn mul_spec(self, rhs: Dimension2) -> Dimension2 {
        Dimension2 {
            width: (self.width * rhs.width) as u32,
            height: (self.height * rhs.height) as u32,
        }
    }
}

impl core::ops::Div for Dimension2 {
    type Output = Dimension2;

    fn div(self, rhs: Dimension2) -> (r: Dimension2) {
        Dimension2::new(self.width / rhs.width, self.height / rhs.height)
    }
}

impl vstd::std_specs::ops::DivSpecImpl for Dimension2 {
    open spec fn obeys_div_spec() -> bool {
        true
    }

    open spec fn div_req(self, rhs: Dimension2) -> bool {
        rhs.width != 0 && rhs.height != 0
    }

    open spec fn div_spec(self, rhs: Dimension2) -> Dimension2 {
        Dimension2 {
            width: (self.width / rhs.width) as u32,
            height: (self.height / rhs.height) as u32,
        }
    }
}

/// Dimensions of the 3rd kind.
#[derive(Copy, Clone, PartialEq, Eq, Structural, Hash, Debug)]
pub struct Dimension3 {
    /// The width of this dimension.
    pub width: u32,
    /// The height of this dimension.
    pub height: u32,
    /// The depth of this dimension.
    pub depth: u32,
}

/// True when `w * h * d`, computed left to right in `u32`, does not
/// overflow.
pub open spec fn volume_fits(w: u32, h: u32, d: u32) -> bool {
    w * h <= u32::MAX && w * h * d <= u32::MAX
}

/// Splitting an index into whole layers and the rest of the last layer:
/// the whole layers fit below the index, and the rest lies in a row of the
/// layer.
pub proof fn lemma_layer_split(u: int, w: int, h: int)
    requires
        u >= 0,
        w >= 0,
        h >= 0,
        w * h > 0,
    ensures
        w > 0,
        h > 0,
        (u / (w * h)) * w <= u,
        (u / (w * h)) * w * h <= u,
        u - (u / (w * h)) * w * h == u % (w * h),
        (u % (w * h)) / w < h,
        (u % (w * h)) / w >= 0,
{
    let l = w * h;
    assert(w > 0 && h > 0) by (nonlinear_arith)
        requires
            w >= 0,
            h >= 0,
            w * h > 0,
    ;
    vstd::arithmetic::div_mod::lemma_fundamental_div_mod(u, l);
    vstd::arithmetic::div_mod::lemma_mod_bound(u, l);
    let z = u / l;
    assert(z * w * h == z * l) by (nonlinear_arith)
        requires
            l == w * h,
    ;
    assert(z * l == l * z) by (nonlinear_arith);
    vstd::arithmetic::div_mod::lemma_div_pos_is_pos(u, l);
    assert(z * w <= z * w * h) by (nonlinear_arith)
        requires
            z >= 0,
            w > 0,
            h > 0,
    ;
    let r = u % l;
    assert(r / w < h) by (nonlinear_arith)
        requires
            0 <= r < w * h,
            w > 0,
    {
        vstd::arithmetic::div_mod::lemma_multiply_divide_lt(r, w, h);
    }
    vstd::arithmetic::div_mod::lemma_div_pos_is_pos(r, w);
}

impl Dimension3 {
    /// The dimension with the given sides.
    pub open spec fn new_spec(width: u32, height: u32, depth: u32) -> Dimension3 {
        Dimension3 { width, height, depth }
    }

    /// The area of one layer as a mathematical integer.
    pub open spec fn spec_layer(self) -> int {
        self.width * self.height
    }

    /// The volume as a mathematical integer.
    pub open spec fn spec_area(self) -> int {
        self.width * self.height * self.depth
    }

    /// True when the point lies outside the bounds that `check_point`
    /// tests.
    pub open spec fn spec_out_of_bounds(self, p: Point3) -> bool {
        ||| p.x < 0 || p.x >= self.width
        ||| p.y < 0 || p.y >= self.height
        ||| p.z < 0 || p.z >= self.depth
    }

    /// The index that `encode_point_unchecked` computes, before it is
    /// converted to `usize`.
    pub open spec fn spec_encode(self, p: Point3) -> int {
        p.z * wrap_i32(self.width as int) * wrap_i32(self.height as int) + p.y * wrap_i32(
            self.width as int,
        ) + p.x
    }

    /// True when every step of `encode_point_unchecked` stays in `i32`.
    pub open spec fn encode_defined(self, p: Point3) -> bool {
        let w = wrap_i32(self.width as int);
        let h = wrap_i32(self.height as int);
        &&& fits_i32(p.z * w)
        &&& fits_i32(p.z * w * h)
        &&& fits_i32(p.y * w)
        &&& fits_i32(p.z * w * h + p.y * w)
        &&& fits_i32(self.spec_encode(p))
    }

    /// The point that `decode_coord_unchecked` computes.
    pub open spec fn spec_decode(self, index: usize) -> Point3 {
        let u = wrap_u32(index as int);
        let layer = self.spec_layer();
        let rest = u % layer;
        Point3 {
            x: wrap_i32(rest % (self.width as int)) as i32,
            y: wrap_i32(self.height - 1 - rest / (self.width as int)) as i32,
            z: wrap_i32(u / layer) as i32,
        }
    }

    /// Constructs a new 3rd dimension.
    pub fn new(width: u32, height: u32, depth: u32) -> (d: Dimension3)
        ensures
            d.width == width,
            d.height == height,
            d.depth == depth,
    {
        Dimension3 { width, height, depth }
    }

    /// The total volume of the dimension.
    pub fn area(&self) -> (a: u32)
        requires
            volume_fits(self.width, self.height, self.depth),
        ensures
            a == self.spec_area(),
    {
        self.width * self.height * self.depth
    }

    /// The maximum X value of this dimension.
    pub fn x_max(&self) -> (r: u32)
        requires
            self.width > 0,
        ensures
            r == self.width - 1,
    {
        self.width - 1
    }

    /// The maximum Y value of this dimension.
    pub fn y_max(&self) -> (r: u32)
        requires
            self.height > 0,
        ensures
            r == self.height - 1,
    {
        self.height - 1
    }

    /// The maximum Z value of this dimension.
    pub fn z_max(&self) -> (r: u32)
        requires
            self.depth > 0,
        ensures
            r == self.depth - 1,
    {
        self.depth - 1
    }

    /// Returns the center as a point.
    pub fn center(&self) -> (p: Point3)
        ensures
            p.x == half(self.width),
            p.y == half(self.height),
            p.z == half(self.depth),
    {
        Point3::new(
            u32_as_i32(self.width) / 2,
            u32_as_i32(self.height) / 2,
            u32_as_i32(self.depth) / 2,
        )
    }

    /// Checks if a given coordinate is within bounds.
    ///
    /// # Errors
    ///
    /// If the point does not exist in the dimensions, an error is returned.
    pub fn check_point(&self, point: Point3) -> (r: DimensionResult<()>)
        ensures
            r is Err <==> self.spec_out_of_bounds(point),
            r matches Err(e) ==> e.spec_kind() == ErrorKind::OutOfBounds,
    {
        if point.x < 0 || point.x as i64 >= self.width as i64 || point.y < 0 || point.y as i64
            >= self.height as i64 || point.z < 0 || point.z as i64 >= self.depth as i64 {
            Err(DimensionError::new(ErrorKind::OutOfBounds))
        } else {
            Ok(())
        }
    }

    /// Checks if a given index is within bounds.
    ///
    /// # Errors
    ///
    /// If the index is not one of the cells of the volume, an error is
    /// returned.
    pub fn check_index(&self, index: usize) -> (r: DimensionResult<()>)
        requires
            volume_fits(self.width, self.height, self.depth),
        ensures
            r is Err <==> index >= self.spec_area(),
            r matches Err(e) ==> e.spec_kind() == ErrorKind::OutOfBounds,
    {
        if index >= (self.width * self.height * self.depth) as usize {
            Err(DimensionError::new(ErrorKind::OutOfBounds))
        } else {
            Ok(())
        }
    }

    /// Encodes a coordinate to an index, unchecked.
    pub fn encode_point_unchecked(&self, point: Point3) -> (i: usize)
        requires
            self.encode_defined(point),
        ensures
            i == wrap_usize(self.spec_encode(point)),
    {
        let w = u32_as_i32(self.width);
        let h = u32_as_i32(self.height);
        i32_as_usize((point.z * w * h) + (point.y * w) + point.x)
    }

    /// Encodes a coordinate to an index.
    ///
    /// # Errors
    ///
    /// If the point does not exist in the dimensions, an error is returned.
    pub fn encode_point(&self, point: Point3) -> (r: DimensionResult<usize>)
        requires
            !self.spec_out_of_bounds(point) ==> self.encode_defined(point),
        ensures
            r is Err <==> self.spec_out_of_bounds(point),
            r matches Err(e) ==> e.spec_kind() == ErrorKind::OutOfBounds,
            r matches Ok(i) ==> i == wrap_usize(self.spec_encode(point)),
    {
        match self.check_point(point) {
            Err(e) => Err(e),
            Ok(()) => Ok(self.encode_point_unchecked(point)),
        }
    }

    /// Decodes an index and returns the coordinate, unchecked.
    pub fn decode_coord_unchecked(&self, index: usize) -> (p: Point3)
        requires
            self.spec_layer() <= u32::MAX,
            self.spec_layer() > 0,
        ensures
            p == self.spec_decode(index),
    {
        let layer = self.width * self.height;
        let u = usize_as_u32(index);
        let z = u / layer;
        proof {
            lemma_layer_split(u as int, self.width as int, self.height as int);
        }
        let rest = u - (z * self.width * self.height);
        let y = self.y_max() - (rest / self.width);
        let x = rest % self.width;
        Point3::new(u32_as_i32(x), u32_as_i32(y), u32_as_i32(z))
    }

    /// Decodes an index and returns the coordinate.
    ///
    /// # Errors
    ///
    /// If the index is not one of the cells of the volume, an error is
    /// returned.
    pub fn decode_coord(&self, index: usize) -> (r: DimensionResult<Point3>)
        requires
            volume_fits(self.width, self.height, self.depth),
            index < self.spec_area() ==> self.spec_layer() > 0,
        ensures
            r is Err <==> index >= self.spec_area(),
            r matches Err(e) ==> e.spec_kind() == ErrorKind::OutOfBounds,
            r matches Ok(p) ==> p == self.spec_decode(index),
    {
        match self.check_index(index) {
            Err(e) => Err(e),
            Ok(()) => Ok(self.decode_coord_unchecked(index)),
        }
    }
}

impl core::convert::From<(u32, u32, u32)> for Dimension3 {
    fn from(t: (u32, u32, u32)) -> (d: Dimension3) {
        Dimension3 { width: t.0, height: t.1, depth: t.2 }
    }
}

impl vstd::std_specs::convert::FromSpecImpl<(u32, u32, u32)> for Dimension3 {
    open spec fn obeys_from_spec() -> bool {
        true
    }

    open spec fn from_spec(t: (u32, u32, u32)) -> Dimension3 {
        Dimension3 { width: t.0, height: t.1, depth: t.2 }
    }
}

impl core::ops::Add for Dimension3 {
    type Output = Dimension3;

    fn add(self, rhs: Dimension3) -> (r: Dimension3) {
        Dimension3::new(self.width + rhs.width, self.height + rhs.height, self.depth + rhs.depth)
    }
}

impl vstd::std_specs::ops::AddSpecImpl for Dimension3 {
    open spec fn obeys_add_spec() -> bool {
        true
    }

    open spec fn add_req(self, rhs: Dimension3) -> bool {
        &&& self.width + rhs.width <= u32::MAX
        &&& self.height + rhs.height <= u32::MAX
        &&& self.depth + rhs.depth <= u32::MAX
    }

    open spec fn add_spec(self, rhs: Dimension3) -> Dimension3 {
        Dimension3 {
            width: (self.width + rhs.width) as u32,
            height: (self.height + rhs.height) as u32,
            depth: (self.depth + rhs.depth) as u32,
        }
    }
}

impl core::ops::Sub for Dimension3 {
    type Output = Dimension3;

    fn sub(self, rhs: Dimension3) -> (r: Dimension3) {
        Dimension3::new(self.width - rhs.width, self.height - rhs.height, self.depth - rhs.depth)
    }
}

impl vstd::std_specs::ops::SubSpecImpl for Dimension3 {
    open spec fn obeys_sub_spec() -> bool {
        true
    }

    open spec fn sub_req(self, rhs: Dimension3) -> bool {
        self.width >= rhs.width && self.height >= rhs.height && self.depth >= rhs.depth
    }

    open spec fn sub_spec(self, rhs: Dimension3) -> Dimension3 {
        Dimension3 {
            width: (self.width - rhs.width) as u32,
            height: (self.height - rhs.height) as u32,
            depth: (self.depth - rhs.depth) as u32,
        }
    }
}

impl core::ops::Mul for Dimension3 {
    type Output = Dimension3;

    fn mul(self, rhs: Dimension3) -> (r: Dimension3) {
        Dimension3::new(self.width * rhs.width, self.height * rhs.height, self.depth * rhs.depth)
    }
}

impl vstd::std_specs::ops::MulSpecImpl for Dimension3 {
    open spec fn obeys_mul_spec() -> bool {
        true
    }

    open spec fn mul_req(self, rhs: Dimension3) -> bool {
        &&& self.width * rhs.width <= u32::MAX
        &&& self.height * rhs.height <= u32::MAX
        &&& self.depth * rhs.depth <= u32::MAX
    }

    open spec fn mul_spec(self, rhs: Dimension3) -> Dimension3 {
        Dimension3 {
            width: (self.width * rhs.width) as u32,
            height: (self.height * rhs.height) as u32,
            depth: (self.depth * rhs.depth) as u32,
        }
    }
}

impl core::ops::Div for Dimension3 {
    type Output = Dimension3;

    fn div(self, rhs: Dimension3) -> (r: Dimension3) {
        Dimension3::new(self.width / rhs.width, self.height / rhs.height, self.depth / rhs.depth)
    }
}

impl vstd::std_specs::ops::DivSpecImpl for Dimension3 {
    open spec fn obeys_div_spec() -> bool {
        true
    }

    open spec fn div_req(self, rhs: Dimension3) -> bool {
        rhs.width != 0 && rhs.height != 0 && rhs.depth != 0
    }

    open spec fn div_spec(self, rhs: Dimension3) -> Dimension3 {
        Dimension3 {
            width: (self.width / rhs.width) as u32,
            height: (self.height / rhs.height) as u32,
            depth: (self.depth / rhs.depth) as u32,
        }
    }
}

/// Decoding undoes encoding on a `Dimension2`: for a point with
/// `0 <= x < width` and `0 <= y < height`, when the area fits in an `i32`,
/// `decode_point_unchecked(encode_point_unchecked(p))` is `p` again.
pub proof fn lemma_dimension2_decode_encode(d: Dimension2, p: Point2)
    requires
        d.spec_area() <= i32::MAX,
        0 <= p.x < d.width,
        0 <= p.y < d.height,
    ensures
        d.encode_defined(p),
        d.decode_defined(wrap_usize(d.spec_encode(p)) as usize),
        d.spec_decode(wrap_usize(d.spec_encode(p)) as usize) == p,
{
    let w = d.width as int;
    let h = d.height as int;
    assert(w <= i32::MAX) by (nonlinear_arith)
        requires
            w * h <= i32::MAX,
            w > 0,
            h > 0,
    ;
    assert(wrap_i32(w) == w) by {
        vstd::arithmetic::div_mod::lemma_small_mod(w as nat, 0x1_0000_0000);
    }
    let i = p.y * w + p.x;
    assert(0 <= p.y * w <= (h - 1) * w) by (nonlinear_arith)
        requires
            0 <= p.y <= h - 1,
            w > 0,
    ;
    assert((h - 1) * w + w == w * h) by (nonlinear_arith);
    assert(0 <= i < w * h);
    assert(wrap_usize(i) == i) by {
        vstd::arithmetic::div_mod::lemma_small_mod(i as nat, (usize::MAX + 1) as nat);
    }
    assert(wrap_i32(i) == i) by {
        vstd::arithmetic::div_mod::lemma_small_mod(i as nat, 0x1_0000_0000);
    }
    vstd::arithmetic::div_mod::lemma_fundamental_div_mod_converse(i, w, p.y as int, p.x as int);
}

/// Decoding a `Dimension3` index reads the rows from the top: for a point
/// inside the dimension whose volume fits in an `i32`,
/// `decode_coord_unchecked(encode_point_unchecked(p))` is the point with the
/// same `x` and `z` and with `y` mirrored to `height - 1 - y`. So decoding
/// undoes encoding only on the middle row of an odd height.
pub proof fn lemma_dimension3_decode_encode(d: Dimension3, p: Point3)
    requires
        d.spec_area() <= i32::MAX,
        0 <= p.x < d.width,
        0 <= p.y < d.height,
        0 <= p.z < d.depth,
    ensures
        d.encode_defined(p),
        d.spec_layer() > 0,
        d.spec_decode(wrap_usize(d.spec_encode(p)) as usize) == Point3::new_spec(
            p.x,
            (d.height - 1 - p.y) as i32,
            p.z,
        ),
{
    let w = d.width as int;
    let h = d.height as int;
    let dd = d.depth as int;
    let l = w * h;
    assert(l > 0 && l <= l * dd && w <= l && h <= l) by (nonlinear_arith)
        requires
            w > 0,
            h > 0,
            dd > 0,
            l == w * h,
    ;
    assert(wrap_i32(w) == w) by {
        vstd::arithmetic::div_mod::lemma_small_mod(w as nat, 0x1_0000_0000);
    }
    assert(wrap_i32(h) == h) by {
        vstd::arithmetic::div_mod::lemma_small_mod(h as nat, 0x1_0000_0000);
    }
    let row = p.y * w + p.x;
    assert(0 <= p.y * w <= (h - 1) * w) by (nonlinear_arith)
        requires
            0 <= p.y <= h - 1,
            w > 0,
    ;
    assert((h - 1) * w + w == l) by (nonlinear_arith)
        requires
            l == w * h,
    ;
    assert(0 <= row < l);
    assert(0 <= p.z * l <= (dd - 1) * l) by (nonlinear_arith)
        requires
            0 <= p.z <= dd - 1,
            l > 0,
    ;
    assert((dd - 1) * l + l == l * dd) by (nonlinear_arith);
    assert(p.z * w * h == p.z * l) by (nonlinear_arith)
        requires
            l == w * h,
    ;
    assert(0 <= p.z * w <= p.z * w * h) by (nonlinear_arith)
        requires
            0 <= p.z,
            w > 0,
            h > 0,
    ;
    let i = p.z * l + row;
    assert(0 <= i < l * dd);
    assert(wrap_usize(i) == i) by {
        vstd::arithmetic::div_mod::lemma_small_mod(i as nat, (usize::MAX + 1) as nat);
    }
    assert(wrap_u32(i) == i) by {
        vstd::arithmetic::div_mod::lemma_small_mod(i as nat, 0x1_0000_0000);
    }
    vstd::arithmetic::div_mod::lemma_fundamental_div_mod_converse(i, l, p.z as int, row);
    vstd::arithmetic::div_mod::lemma_fundamental_div_mod_converse(row, w, p.y as int, p.x as int);
    let y2 = h - 1 - p.y;
    assert(wrap_i32(p.x as int) == p.x) by {
        vstd::arithmetic::div_mod::lemma_small_mod(p.x as nat, 0x1_0000_0000);
    }
    assert(wrap_i32(y2) == y2) by {
        vstd::arithmetic::div_mod::lemma_small_mod(y2 as nat, 0x1_0000_0000);
    }
    assert(wrap_i32(p.z as int) == p.z) by {
        vstd::arithmetic::div_mod::lemma_small_mod(p.z as nat, 0x1_0000_0000);
    }
}

} // verus!
