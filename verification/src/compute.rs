use vstd::prelude::*;

pub mod graph;
pub mod non_numeric;
pub mod tensor;

use crate::error::ComputeError;

verus! {

/// A generic top-level computation capability: implementers turn an input
/// into an output, reporting coarse failures through [`ComputeError`].
pub trait Compute {
    type Input;

    type Output;

    fn compute(&self, input: Self::Input) -> Result<Self::Output, ComputeError>;
}

} // verus!
