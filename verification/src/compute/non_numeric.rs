use vstd::prelude::*;

use crate::error::NonNumericComputationError;

verus! {

/// The non-numeric computation capability: parsing, pattern matching and
/// querying over a single value type.
///
/// No implementation is provided here; the grammar, matching algorithm and
/// query language are left to external implementers.  The trait is a
/// capability seam for components not covered by the numeric core.
pub trait NonNumericComputation {
    type Input;

    type Output;

    fn parse(&self, input: Self::Input) -> Result<Self::Output, NonNumericComputationError>;

    fn match_pattern(
        &self,
        input: Self::Input,
        pattern: Self::Input,
    ) -> Result<Self::Output, NonNumericComputationError>;

    fn query(
        &self,
        input: Self::Input,
        query: Self::Input,
    ) -> Result<Self::Output, NonNumericComputationError>;
}

} // verus!
