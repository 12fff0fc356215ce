//! Configuration values shared between the driver and its callers.

use vstd::prelude::*;

verus! {

/// Where to run the kernel calculations.
#[derive(Clone, Copy, PartialEq, Eq, Structural, Debug)]
pub enum ComputeType {
    /// Conventional CPU computations. The slowest method.
    CPU,
    /// A SPIRV shader run on the GPU via Vulkan.
    Vulkan,
    /// A CUDA kernel.
    Cuda,
}

} // verus!
