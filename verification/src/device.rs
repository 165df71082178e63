use vstd::prelude::*;

use crate::error::ComputeError;

pub mod cpu;

verus! {

/// A device abstracts where a unit of work runs.
///
/// `execute` invokes the given zero-argument unit of work exactly once and
/// propagates its result or failure unchanged: no retry, no transformation.
/// The result is a shared-ownership handle so several consumers may read it
/// without copying.  A backend may change where the work runs, but its
/// outward contract must stay exactly this pass-through.
pub trait Device {
    fn execute<F, R>(&self, computation: F) -> (result: Result<
        std::sync::Arc<R>,
        ComputeError,
    >) where F: FnOnce() -> Result<std::sync::Arc<R>, ComputeError>
        requires
            call_requires(computation, ()),
        ensures
            call_ensures(computation, (), result),
    ;
}

} // verus!
