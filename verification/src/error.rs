use vstd::prelude::*;

verus! {

/// Deterministic, caller-triggered failures of the tracing library.
#[derive(Clone, Copy, Debug, PartialEq, Eq, Structural)]
pub enum TracerError {
    /// A geometric type mismatch, such as adding two points.
    InvalidOperand,
    /// A malformed value handed to a constructor, such as a non-point ray
    /// origin or a wrong pattern color count.
    InvalidArgument,
    /// Inversion of a matrix whose determinant is zero.
    SingularMatrix,
    /// A shape or light lookup miss.
    IndexOutOfRange,
    /// An explicit scalar division by zero.
    DivisionByZero,
}

} // verus!
