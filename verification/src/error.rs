//! The ways in which an operation of the engine can fail.
use vstd::prelude::*;

verus! {

/// Why an operation failed.
#[derive(Clone, Copy, Debug, PartialEq, Eq, Structural)]
pub enum Error {
    /// The shapes of two operands do not fit the operation.
    ShapeMismatch,
    /// A buffer does not hold as many values as its declared shape has cells.
    LengthMismatch,
    /// The training inputs and the training targets differ in number.
    DatasetSizeMismatch,
    /// A layer cannot follow the shape that precedes it in the network.
    StructuralPrecondition,
}

} // verus!
