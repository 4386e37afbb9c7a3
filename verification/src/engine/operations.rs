//! The operations the engine offers on named tensors.

use vstd::prelude::*;

verus! {

/// Operations on two tensors.
#[derive(Debug, Clone, Copy, PartialEq, Eq, Structural)]
pub enum BinaryOp {
    /// Element-wise sum.
    Add,
    /// Element-wise difference.
    Subtract,
    /// Element-wise product.
    Multiply,
    /// Element-wise quotient.
    Divide,
    /// Dot product of two vectors.
    Correlate,
    /// Cosine similarity of two vectors.
    Similarity,
    /// Euclidean distance between two vectors.
    Distance,
}

/// Operations on one tensor.
#[derive(Debug, Clone, Copy, PartialEq, Eq, Structural)]
pub enum UnaryOp {
    /// Every element multiplied by a number, given as its bit pattern.
    Scale(u32),
    /// A vector rescaled to norm one.
    Normalize,
    /// The transpose of a matrix.
    Transpose,
    /// The elements as a vector.
    Flatten,
}

/// Whether element-wise operations on a tensor demand equal shapes.
#[derive(Debug, Clone, Copy, PartialEq, Eq, Structural)]
pub enum TensorKind {
    /// A scalar combines with anything and vectors of different lengths
    /// are padded.
    Normal,
    /// Shapes must be equal.
    Strict,
}

impl TensorKind {
    /// The kind of a result: strict as soon as one input is strict.
    pub open spec fn joined(self, other: TensorKind) -> TensorKind {
        if self == TensorKind::Strict || other == TensorKind::Strict {
            TensorKind::Strict
        } else {
            TensorKind::Normal
        }
    }

    /// Computes [`TensorKind::joined`].
    pub fn join(self, other: TensorKind) -> (r: TensorKind)
        ensures
            r == self.joined(other),
    {
        match (self, other) {
            (TensorKind::Strict, _) => TensorKind::Strict,
            (_, TensorKind::Strict) => TensorKind::Strict,
            _ => TensorKind::Normal,
        }
    }
}

} // verus!
