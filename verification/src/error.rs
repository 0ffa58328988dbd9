//! The errors of the conversions.
use vstd::prelude::*;

verus! {

/// The three forms an external node can take.
#[derive(Clone, Copy, Debug, PartialEq, Eq)]
pub enum NodeKind {
    Null,
    Matrix,
    List,
}

/// How a node departs from the shape that its place calls for. Each variant
/// names what was expected and what was found.
#[derive(Clone, Copy, Debug, PartialEq, Eq)]
pub enum ShapeError {
    /// The node is of another form: a list or null where a matrix belongs, or a
    /// matrix or null where a list belongs.
    Node { expected_kind: NodeKind, found_kind: NodeKind },
    /// The node declares another number of extents than the two of a matrix.
    Dimensions { expected: usize, found: usize },
    /// The matrix has another number of columns than x and y.
    Columns { expected: usize, found: usize },
    /// The matrix has another number of rows than the kind allows.
    Rows { expected: usize, found: usize },
    /// The buffer does not hold two values for each of `rows` rows.
    Buffer { rows: usize, found: usize },
}

/// Why a conversion or a check failed.
#[derive(Clone, Debug, PartialEq, Eq)]
pub enum Error {
    /// A node does not have the shape of a two-column matrix, or of a list, where
    /// one is needed.
    Shape(ShapeError),
    /// A polygon has no ring at all, so no exterior.
    EmptyRings,
    /// A geometry vector was expected, and the container's first class is
    /// missing (`None`) or does not mark one.
    NotAGeometryVector(Option<String>),
}

impl Error {
    /// The error of a node of the form `found` where one of the form `expected`
    /// is needed.
    pub open spec fn spec_wrong_node(expected: NodeKind, found: NodeKind) -> Error {
        Error::Shape(ShapeError::Node { expected_kind: expected, found_kind: found })
    }

    /// The error of a node of the form `found` where one of the form `expected`
    /// is needed.
    pub fn wrong_node(expected: NodeKind, found: NodeKind) -> (e: Error)
        ensures
            e == Error::spec_wrong_node(expected, found),
    {
        Error::Shape(ShapeError::Node { expected_kind: expected, found_kind: found })
    }
}

/// The failure of one element of a vector, with its position.
#[derive(Clone, Debug, PartialEq, Eq)]
pub struct ElementError {
    pub index: usize,
    pub error: Error,
}

} // verus!
