use vstd::prelude::*;

verus! {

/// What can go wrong when the parts of a layer do not fit together.
#[derive(Debug, Clone, Copy, PartialEq, Eq, Structural)]
pub enum LayerError {
    /// Two vectors that are compared element by element differ in length.
    LengthMismatch,
    /// A weight matrix, a bias vector and an input vector do not describe one layer.
    ShapeMismatch,
}

} // verus!
