use wgpu_compute::device::LogicalDevice;
use wgpu_compute::registry::Registry;

#[test]
fn empty_registry_has_no_entries() {
    let registry: Registry<u32> = Registry::new();
    assert!(registry.lookup(&LogicalDevice::BestAvailable).is_none());
    assert!(registry.lookup(&LogicalDevice::Cpu).is_none());
    assert!(registry.lookup(&LogicalDevice::DiscreteGpu(0)).is_none());
}

#[test]
fn cached_entry_is_served_again_unchanged() {
    let mut registry: Registry<u32> = Registry::new();
    registry.insert(LogicalDevice::DiscreteGpu(0), 11);
    assert_eq!(registry.lookup(&LogicalDevice::DiscreteGpu(0)), Some(&11));
    // A second request for the same descriptor sees the same entry: nothing
    // was rebuilt or replaced.
    assert_eq!(registry.lookup(&LogicalDevice::DiscreteGpu(0)), Some(&11));
}

#[test]
fn distinct_descriptors_have_independent_entries() {
    let mut registry: Registry<u32> = Registry::new();
    registry.insert(LogicalDevice::DiscreteGpu(0), 1);
    registry.insert(LogicalDevice::DiscreteGpu(1), 2);
    registry.insert(LogicalDevice::Cpu, 3);
    assert_eq!(registry.lookup(&LogicalDevice::DiscreteGpu(0)), Some(&1));
    assert_eq!(registry.lookup(&LogicalDevice::DiscreteGpu(1)), Some(&2));
    assert_eq!(registry.lookup(&LogicalDevice::Cpu), Some(&3));
    assert!(registry.lookup(&LogicalDevice::BestAvailable).is_none());
}

#[test]
fn indexed_variants_are_distinct_keys() {
    let mut registry: Registry<u32> = Registry::new();
    registry.insert(LogicalDevice::IntegratedGpu(0), 5);
    assert!(registry.lookup(&LogicalDevice::DiscreteGpu(0)).is_none());
    assert!(registry.lookup(&LogicalDevice::VirtualGpu(0)).is_none());
    assert_eq!(registry.lookup(&LogicalDevice::IntegratedGpu(0)), Some(&5));
}
