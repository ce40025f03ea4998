use vstd::prelude::*;

verus! {

/// Reclaim pass frequency used for every server: one pass every 1000
/// memory operations.
pub const DEALLOC_PERIOD: u64 = 1000;

/// Minimal fill of a reused free region, in percent: a request may reuse a
/// free region only when it would occupy at least 90% of it.
pub const SLICE_REUSE_PERCENT: u64 = 90;

/// When deallocated regions are actually reclaimed. The tick value counts
/// memory operations between two reclaim passes.
#[derive(Clone, Copy, PartialEq, Eq, Structural, Debug)]
pub enum DeallocStrategy {
    PeriodicTick(u64),
}

/// When an existing free region may serve a smaller request. The ratio is
/// kept in percent, so that the policy stays in integer arithmetic.
#[derive(Clone, Copy, PartialEq, Eq, Structural, Debug)]
pub enum SliceStrategy {
    Ratio(u64),
}

impl SliceStrategy {
    /// A meaningful reuse ratio lies in (0, 1], that is between 1 and 100
    /// percent.
    pub open spec fn wf(self) -> bool {
        match self {
            SliceStrategy::Ratio(percent) => 1 <= percent <= 100,
        }
    }
}

/// Memory-management policy baked into a server at construction.
#[derive(Clone, Copy, PartialEq, Eq, Structural, Debug)]
pub struct MemoryConfig {
    pub deallocation: DeallocStrategy,
    pub slice_reuse: SliceStrategy,
}

/// The fixed policy every server is constructed with.
pub open spec fn spec_server_memory_config() -> MemoryConfig {
    MemoryConfig {
        deallocation: DeallocStrategy::PeriodicTick(1000),
        slice_reuse: SliceStrategy::Ratio(90),
    }
}

/// Whether a request of `requested` bytes may reuse a free region of
/// `region` bytes under the given slice strategy: the request must fit and
/// fill at least the strategy's percentage of the region.
pub open spec fn spec_should_reuse(s: SliceStrategy, requested: u64, region: u64) -> bool {
    match s {
        SliceStrategy::Ratio(percent) => requested <= region && requested * 100 >= region
            * percent,
    }
}

impl MemoryConfig {
    /// The policy this core fixes for every server: a reclaim pass every
    /// [`DEALLOC_PERIOD`] operations, and slice reuse at
    /// [`SLICE_REUSE_PERCENT`] percent fill or better.
    pub fn server_default() -> (c: MemoryConfig)
        ensures
            c == spec_server_memory_config(),
    {
        MemoryConfig {
            deallocation: DeallocStrategy::PeriodicTick(DEALLOC_PERIOD),
            slice_reuse: SliceStrategy::Ratio(SLICE_REUSE_PERCENT),
        }
    }

    pub open spec fn wf(self) -> bool {
        self.slice_reuse.wf()
    }
}

impl SliceStrategy {
    /// Decide whether a free region of `region` bytes satisfies a request of
    /// `requested` bytes, rather than forcing a fresh allocation.
    pub fn should_reuse(&self, requested: u64, region: u64) -> (r: bool)
        requires
            self.wf(),
        ensures
            r == spec_should_reuse(*self, requested, region),
    {
        match self {
            SliceStrategy::Ratio(percent) => {
                let p: u64 = *percent;
                proof {
                    assert((region as u128) * (p as u128) <= (u64::MAX as u128) * 100)
                        by (nonlinear_arith)
                        requires
                            region as u128 <= u64::MAX as u128,
                            p as u128 <= 100,
                    ;
                }
                requested <= region && (requested as u128) * 100 >= (region as u128) * (
                p as u128)
            },
        }
    }
}

} // verus!
