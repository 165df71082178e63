use vstd::prelude::*;

use crate::device::Device;
use crate::error::ComputeError;

verus! {

/// A CPU execution backend.  It runs every unit of work inline and
/// synchronously on the calling context.
pub struct Cpu {
    cores: usize,
    threads: usize,
    frequency: u64,
}

impl Cpu {
    pub closed spec fn cores_spec(&self) -> usize {
        self.cores
    }

    pub closed spec fn threads_spec(&self) -> usize {
        self.threads
    }

    pub closed spec fn frequency_spec(&self) -> u64 {
        self.frequency
    }

    /// Describe a CPU by its core count, its hardware thread count and its
    /// clock frequency in kilohertz.
    pub fn new(cores: usize, threads: usize, frequency: u64) -> (r: Cpu)
        ensures
            r.cores_spec() == cores,
            r.threads_spec() == threads,
            r.frequency_spec() == frequency,
    {
        Cpu { cores, threads, frequency }
    }

    pub fn cores(&self) -> (r: usize)
        ensures
            r == self.cores_spec(),
    {
        self.cores
    }

    pub fn threads(&self) -> (r: usize)
        ensures
            r == self.threads_spec(),
    {
        self.threads
    }

    pub fn frequency(&self) -> (r: u64)
        ensures
            r == self.frequency_spec(),
    {
        self.frequency
    }
}

impl Device for Cpu {
    /// Invokes the unit of work once, inline, and returns its result or
    /// failure unchanged.
    fn execute<F, R>(&self, computation: F) -> (result: Result<
        std::sync::Arc<R>,
        ComputeError,
    >) where F: FnOnce() -> Result<std::sync::Arc<R>, ComputeError> {
        computation()
    }
}

} // verus!
