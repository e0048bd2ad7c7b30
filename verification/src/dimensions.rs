//! Dimensions with private sizes whose maxima are the last valid
//! coordinate (`size - 1`), with encoding to and decoding from indexes.

use vstd::prelude::*;
use crate::arith::{wrap_i32, wrap_usize, u32_as_i32, i32_as_usize, usize_as_i32, usize_as_u32};
use crate::dimension::{
    Dimension2, Dimension3, DimensionError, DimensionResult, ErrorKind, half, volume_fits,
    lemma_layer_split,
};
use crate::point::{Point2, Point3};

verus! {

/// Dimensions of the 2nd kind, read through accessors.
#[derive(Copy, Clone, Debug)]
pub struct Dimensions2 {
    width: u32,
    height: u32,
}

impl View for Dimensions2 {
    type V = Dimension2;

    closed spec fn view(&self) -> Dimension2 {
        Dimension2 { width: self.width, height: self.height }
    }
}

impl Dimensions2 {
    /// True when the point lies past the last column or row that
    /// `check_point` accepts.
    pub open spec fn spec_out_of_bounds(self, p: Point2) -> bool {
        p.x > wrap_i32(self@.width - 1) || p.y > wrap_i32(self@.height - 1)
    }

    /// Constructs new dimensions.
    pub fn new(width: u32, height: u32) -> (d: Dimensions2)
        ensures
            d@ == Dimension2::new_spec(width, height),
    {
        Dimensions2 { width, height }
    }

    /// The width of this dimension.
    pub fn width(&self) -> (r: u32)
        ensures
            r == self@.width,
    {
        self.width
    }

    /// The height of this dimension.
    pub fn height(&self) -> (r: u32)
        ensures
            r == self@.height,
    {
        self.height
    }

    /// The maximum X value of this dimension.
    pub fn x_max(&self) -> (r: u32)
        requires
            self@.width > 0,
        ensures
            r == self@.width - 1,
    {
        self.width - 1
    }

    /// The maximum Y value of this dimension.
    pub fn y_max(&self) -> (r: u32)
        requires
            self@.height > 0,
        ensures
            r == self@.height - 1,
    {
        self.height - 1
    }

    /// Returns the center as a point.
    pub fn center(&self) -> (p: Point2)
        ensures
            p.x == self@.width / 2,
            p.y == self@.height / 2,
    {
        Point2::new((self.width / 2) as i32, (self.height / 2) as i32)
    }

    /// Checks if a coordinate is valid and inbounds.
    ///
    /// # Errors
    ///
    /// If the point lies past the last column or row, an error is returned.
    pub fn check_point(&self, point: Point2) -> (r: DimensionResult<()>)
        requires
            self@.width > 0,
            point.x <= wrap_i32(self@.width - 1) ==> self@.height > 0,
        ensures
            r is Err <==> self.spec_out_of_bounds(point),
            r matches Err(e) ==> e.spec_kind() == ErrorKind::OutOfBounds,
    {
        if point.x() > u32_as_i32(self.x_max()) || point.y() > u32_as_i32(self.y_max()) {
            Err(DimensionError::new(ErrorKind::OutOfBounds))
        } else {
            Ok(())
        }
    }

    /// Checks if an index is valid and inbounds.
    ///
    /// # Errors
    ///
    /// If the index is not one of the `width * height` cells, an error is
    /// returned.
    pub fn check_index(&self, index: usize) -> (r: DimensionResult<()>)
        requires
            self@.spec_area() <= u32::MAX,
        ensures
            r is Err <==> index >= self@.spec_area(),
            r matches Err(e) ==> e.spec_kind() == ErrorKind::OutOfBounds,
    {
        if index >= (self.width * self.height) as usize {
            Err(DimensionError::new(ErrorKind::OutOfBounds))
        } else {
            Ok(())
        }
    }

    /// Encodes a coordinate and returns an index value, unchecked.
    pub fn encode_point_unchecked(&self, point: Point2) -> (i: usize)
        requires
            self@.encode_defined(point),
        ensures
            i == wrap_usize(self@.spec_encode(point)),
    {
        let w = u32_as_i32(self.width);
        i32_as_usize((point.y() * w) + point.x())
    }

    /// Encodes a coordinate and returns an index value.
    ///
    /// # Errors
    ///
    /// If the point lies past the last column or row, an error is returned.
    pub fn encode_point(&self, point: Point2) -> (r: DimensionResult<usize>)
        requires
            self@.width > 0,
            point.x <= wrap_i32(self@.width - 1) ==> self@.height > 0,
            !self.spec_out_of_bounds(point) ==> self@.encode_defined(point),
        ensures
            r is Err <==> self.spec_out_of_bounds(point),
            r matches Err(e) ==> e.spec_kind() == ErrorKind::OutOfBounds,
            r matches Ok(i) ==> i == wrap_usize(self@.spec_encode(point)),
    {
        match self.check_point(point) {
            Err(e) => Err(e),
            Ok(()) => Ok(self.encode_point_unchecked(point)),
        }
    }

    /// Decodes an index value and returns a coordinate, unchecked.
    pub fn decode_point_unchecked(&self, index: usize) -> (p: Point2)
        requires
            self@.decode_defined(index),
        ensures
            p == self@.spec_decode(index),
    {
        let i = usize_as_i32(index);
        let y = i / u32_as_i32(self.width);
        let x = i % u32_as_i32(self.width);
        Point2::new(x, y)
    }

    /// Decodes an index value and returns a coordinate.
    ///
    /// # Errors
    ///
    /// If the index is not one of the `width * height` cells, an error is
    /// returned.
    pub fn decode_point(&self, index: usize) -> (r: DimensionResult<Point2>)
        requires
            self@.spec_area() <= u32::MAX,
            index < self@.spec_area() ==> self@.decode_defined(index),
        ensures
            r is Err <==> index >= self@.spec_area(),
            r matches Err(e) ==> e.spec_kind() == ErrorKind::OutOfBounds,
            r matches Ok(p) ==> p == self@.spec_decode(index),
    {
        match self.check_index(index) {
            Err(e) => Err(e),
            Ok(()) => Ok(self.decode_point_unchecked(index)),
        }
    }
}

/// Dimensions of the 3rd kind, read through accessors.
#[derive(Copy, Clone, Debug)]
pub struct Dimensions3 {
    width: u32,
    height: u32,
    depth: u32,
}

impl View for Dimensions3 {
    type V = Dimension3;

    closed spec fn view(&self) -> Dimension3 {
        Dimension3 { width: self.width, height: self.height, depth: self.depth }
    }
}

impl Dimensions3 {
    /// Constructs new dimensions.
    pub fn new(width: u32, height: u32, depth: u32) -> (d: Dimensions3)
        ensures
            d@ == Dimension3::new_spec(width, height, depth),
    {
        Dimensions3 { width, height, depth }
    }

    /// The width of this dimension.
    pub fn width(&self) -> (r: u32)
        ensures
            r == self@.width,
    {
        self.width
    }

    /// The height of this dimension.
    pub fn height(&self) -> (r: u32)
        ensures
            r == self@.height,
    {
        self.height
    }

    /// The depth of this dimension.
    pub fn depth(&self) -> (r: u32)
        ensures
            r == self@.depth,
    {
        self.depth
    }

    /// The maximum X value of this dimension.
    pub fn x_max(&self) -> (r: u32)
        requires
            self@.width > 0,
        ensures
            r == self@.width - 1,
    {
        self.width - 1
    }

    /// The maximum Y value of this dimension.
    pub fn y_max(&self) -> (r: u32)
        requires
            self@.height > 0,
        ensures
            r == self@.height - 1,
    {
        self.height - 1
    }

    /// The maximum Z value of this dimension.
    pub fn z_max(&self) -> (r: u32)
        requires
            self@.depth > 0,
        ensures
            r == self@.depth - 1,
    {
        self.depth - 1
    }

    /// Returns the center as a point.
    pub fn center(&self) -> (p: Point3)
        ensures
            p.x == half(self@.width),
            p.y == half(self@.height),
            p.z == half(self@.depth),
    {
        Point3::new(
            u32_as_i32(self.width) / 2,
            u32_as_i32(self.height) / 2,
            u32_as_i32(self.depth) / 2,
        )
    }

    /// Checks if a given coordinate is within bounds.
    ///
    /// # Errors
    ///
    /// If the point does not exist in the dimensions, an error is returned.
    pub fn check_point(&self, point: Point3) -> (r: DimensionResult<()>)
        ensures
            r is Err <==> self@.spec_out_of_bounds(point),
            r matches Err(e) ==> e.spec_kind() == ErrorKind::OutOfBounds,
    {
        if point.x() < 0 || point.x() as i64 >= self.width as i64 || point.y() < 0 || point.y() as i64
            >= self.height as i64 || point.z() < 0 || point.z() as i64 >= self.depth as i64 {
            Err(DimensionError::new(ErrorKind::OutOfBounds))
        } else {
            Ok(())
        }
    }

    /// Checks if a given index is within bounds.
    ///
    /// # Errors
    ///
    /// If the index is larger than the volume, an error is returned.
    pub fn check_index(&self, index: usize) -> (r: DimensionResult<()>)
        requires
            volume_fits(self@.width, self@.height, self@.depth),
        ensures
            r is Err <==> index >= self@.spec_area(),
            r matches Err(e) ==> e.spec_kind() == ErrorKind::OutOfBounds,
    {
        if index >= (self.width * self.height * self.depth) as usize {
            Err(DimensionError::new(ErrorKind::OutOfBounds))
        } else {
            Ok(())
        }
    }

    /// Encodes a coordinate to an index, unchecked.
    pub fn encode_point_unchecked(&self, point: Point3) -> (i: usize)
        requires
            self@.encode_defined(point),
        ensures
            i == wrap_usize(self@.spec_encode(point)),
    {
        let w = u32_as_i32(self.width);
        let h = u32_as_i32(self.height);
        i32_as_usize((point.z() * w * h) + (point.y() * w) + point.x())
    }

    /// Encodes a coordinate to an index.
    ///
    /// # Errors
    ///
    /// If the point does not exist in the dimensions, an error is returned.
    pub fn encode_point(&self, point: Point3) -> (r: DimensionResult<usize>)
        requires
            !self@.spec_out_of_bounds(point) ==> self@.encode_defined(point),
        ensures
            r is Err <==> self@.spec_out_of_bounds(point),
            r matches Err(e) ==> e.spec_kind() == ErrorKind::OutOfBounds,
            r matches Ok(i) ==> i == wrap_usize(self@.spec_encode(point)),
    {
        match self.check_point(point) {
            Err(e) => Err(e),
            Ok(()) => Ok(self.encode_point_unchecked(point)),
        }
    }

    /// Decodes an index and returns the coordinate, unchecked.
    pub fn decode_coord_unchecked(&self, index: usize) -> (p: Point3)
        requires
            self@.spec_layer() <= u32::MAX,
            self@.spec_layer() > 0,
        ensures
            p == self@.spec_decode(index),
    {
        let layer = self.width * self.height;
        let u = usize_as_u32(index);
        let z = u / layer;
        proof {
            lemma_layer_split(u as int, self.width as int, self.height as int);
        }
        let rest = u - (z * self.width * self.height);
        let y = self.y_max() - (rest / self.width);
        let x = rest % self.width;
        Point3::new(u32_as_i32(x), u32_as_i32(y), u32_as_i32(z))
    }

    /// Decodes an index and returns the coordinate.
    ///
    /// # Errors
    ///
    /// If the index is larger than the volume, an error is returned.
    pub fn decode_coord(&self, index: usize) -> (r: DimensionResult<Point3>)
        requires
            volume_fits(self@.width, self@.height, self@.depth),
            index < self@.spec_area() ==> self@.spec_layer() > 0,
        ensures
            r is Err <==> index >= self@.spec_area(),
            r matches Err(e) ==> e.spec_kind() == ErrorKind::OutOfBounds,
            r matches Ok(p) ==> p == self@.spec_decode(index),
    {
        match self.check_index(index) {
            Err(e) => Err(e),
            Ok(()) => Ok(self.decode_coord_unchecked(index)),
        }
    }
}

} // verus!
