use vstd::prelude::*;

use crate::error::GraphComputationError;

verus! {

/// The graph computation capability: incremental construction of a graph
/// followed by a computation over it.
///
/// No implementation is provided here; the trait is the contract external
/// code must honor.  An implementer must signal
/// [`GraphComputationError::InvalidNode`] when a call references a node
/// that was never added, [`GraphComputationError::EdgeExists`] when adding
/// a duplicate edge, and [`GraphComputationError::CycleDetected`] when its
/// own invariants require acyclicity and it is violated.
pub trait GraphComputation {
    type Node;

    type Edge;

    type Output;

    fn add_node(&mut self, node: Self::Node) -> Result<(), GraphComputationError>;

    fn add_edge(
        &mut self,
        node1: Self::Node,
        node2: Self::Node,
    ) -> Result<(), GraphComputationError>;

    fn compute(&self) -> Result<Self::Output, GraphComputationError>;
}

} // verus!
