use vstd::prelude::*;

verus! {

/// Failures reported by implementers of the graph capability.
#[derive(Debug)]
pub enum GraphComputationError {
    /// A node was referenced that was never added.
    InvalidNode { node: usize },
    /// An edge between the two nodes already exists.
    EdgeExists { node1: usize, node2: usize },
    /// The implementer requires acyclicity and it was violated.
    CycleDetected,
}

/// Failures of tensor construction and arithmetic.
#[derive(Debug)]
pub enum TensorComputationError {
    /// The number of dimensions or their sizes do not agree.
    ///
    /// At construction time `expected` and `found` each carry a single
    /// total element count; on a binary operation they carry the two full
    /// per-axis shapes.  The asymmetry is part of the contract.
    ShapeMismatch { expected: Vec<usize>, found: Vec<usize> },
    /// An element operator failed, for example by overflow.
    ArithmeticError { details: String },
}

/// Failures reported by implementers of the non-numeric capability.
#[derive(Debug)]
pub enum NonNumericComputationError {
    ParseError { details: String },
    PatternMatchError { details: String },
    QueryExecutionError { details: String },
    UnknownError,
}

/// Coarse failures reported by devices and top-level computations.
#[derive(Debug)]
pub enum ComputeError {
    MemoryAllocationError { details: String },
    InvalidOperation { message: String },
    DeviceError { details: String },
    GeneralError { message: String },
}

} // verus!
