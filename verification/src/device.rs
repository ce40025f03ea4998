use vstd::prelude::*;

verus! {

/// Abstract descriptor of the device a caller wants work to run on.
///
/// The numeric argument selects the n-th adapter of that category (0-based)
/// when several adapters of the same category are present. The descriptor is
/// an immutable value type and serves as the registry's cache key.
#[derive(Clone, Copy, PartialEq, Eq, Structural, Debug, Hash)]
pub enum LogicalDevice {
    DiscreteGpu(usize),
    IntegratedGpu(usize),
    VirtualGpu(usize),
    Cpu,
    BestAvailable,
}

impl LogicalDevice {
    /// The 0-based adapter index the descriptor asks for; the CPU and
    /// best-available descriptors always refer to the first candidate.
    pub open spec fn requested_index(self) -> int {
        match self {
            LogicalDevice::DiscreteGpu(i) => i as int,
            LogicalDevice::IntegratedGpu(i) => i as int,
            LogicalDevice::VirtualGpu(i) => i as int,
            LogicalDevice::Cpu => 0,
            LogicalDevice::BestAvailable => 0,
        }
    }
}

} // verus!
