//! The errors of the tile map of the first design, which kept its
//! dimensions as floating point vectors.

use vstd::prelude::*;
use crate::dimension::DimensionError;

verus! {

/// The kinds of errors that can occur for a `MapError`.
#[derive(Copy, Clone, PartialEq, Eq, Structural, Hash, Debug)]
pub enum ErrorKind {
    /// If the coordinate or index is out of bounds.
    DimensionError(DimensionError),
}

/// A `MapError` indicates that an error with the map has occurred.
#[derive(Copy, Clone, PartialEq, Eq, Structural, Hash, Debug)]
pub struct MapError(ErrorKind);

impl MapError {
    /// The kind of the error.
    pub closed spec fn spec_kind(self) -> ErrorKind {
        self.0
    }

    /// Creates a new `MapError`.
    pub fn new(kind: ErrorKind) -> (e: MapError)
        ensures
            e.spec_kind() == kind,
    {
        MapError(kind)
    }

    /// Returns the underlying error kind.
    pub fn kind(&self) -> (k: &ErrorKind)
        ensures
            *k == self.spec_kind(),
    {
        &self.0
    }
}

impl core::convert::From<DimensionError> for MapError {
    fn from(err: DimensionError) -> (e: MapError) {
        MapError(ErrorKind::DimensionError(err))
    }
}

impl vstd::std_specs::convert::FromSpecImpl<DimensionError> for MapError {
    open spec fn obeys_from_spec() -> bool {
        true
    }

    closed spec fn from_spec(err: DimensionError) -> MapError {
        MapError(ErrorKind::DimensionError(err))
    }
}

impl core::convert::From<ErrorKind> for MapError {
    fn from(kind: ErrorKind) -> (e: MapError) {
        MapError(kind)
    }
}

impl vstd::std_specs::convert::FromSpecImpl<ErrorKind> for MapError {
    open spec fn obeys_from_spec() -> bool {
        true
    }

    closed spec fn from_spec(kind: ErrorKind) -> MapError {
        MapError(kind)
    }
}

} // verus!
