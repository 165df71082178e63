//! A pluggable numeric-computation layer: a dense multi-dimensional tensor
//! type with shape-validated elementwise arithmetic and axis-reversing
//! transposition, exposed through capability interfaces that concrete
//! execution backends implement.

pub mod compute;
pub mod device;
pub mod error;

pub use crate::compute::Compute;
pub use crate::compute::graph::GraphComputation;
pub use crate::compute::non_numeric::NonNumericComputation;
pub use crate::compute::tensor::Tensor;
pub use crate::compute::tensor::TensorComputation;
pub use crate::compute::tensor::TensorElement;
pub use crate::device::Device;
pub use crate::device::cpu::Cpu;
pub use crate::error::ComputeError;
pub use crate::error::GraphComputationError;
pub use crate::error::NonNumericComputationError;
pub use crate::error::TensorComputationError;
