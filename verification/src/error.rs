use vstd::prelude::*;

verus! {

/// Why an operation of this crate was refused.
#[derive(Debug, Clone, Copy, PartialEq, Eq, Structural)]
pub enum Error {
    /// `bytes` bytes do not hold a whole number of elements of `unit` bytes.
    Alignment { bytes: usize, unit: usize },
    /// The shape is malformed: it has a dimension of zero, not as many
    /// dimensions as are asked for, or more elements than can be counted.
    Shape,
    /// `actual` elements cannot fill a shape of `expected` elements.
    ShapeMismatch { expected: u128, actual: usize },
    /// A view of `requested` dimensions was asked of an array of `actual`.
    Dimensionality { requested: usize, actual: usize },
    /// The parameters of a distribution describe no distribution.
    Range,
}

} // verus!
