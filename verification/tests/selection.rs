use wgpu_compute::adapter::{AdapterCategory, PhysicalAdapter};
use wgpu_compute::adapter::select_adapter;
use wgpu_compute::device::LogicalDevice;

fn entry(handle: u32, category: AdapterCategory, name: &str) -> PhysicalAdapter<u32> {
    PhysicalAdapter { handle, category, name: String::from(name) }
}

fn best_of(adapters: Vec<PhysicalAdapter<u32>>) -> u32 {
    match select_adapter(&LogicalDevice::BestAvailable, adapters) {
        Ok(chosen) => chosen.handle,
        Err(_) => panic!("expected a chosen adapter"),
    }
}

#[test]
fn best_available_prefers_discrete_in_every_order() {
    let cpu = |h: u32| entry(h, AdapterCategory::Cpu, "cpu");
    let igpu = |h: u32| entry(h, AdapterCategory::IntegratedGpu, "integrated");
    let dgpu = |h: u32| entry(h, AdapterCategory::DiscreteGpu, "discrete");

    assert_eq!(best_of(vec![cpu(1), igpu(2), dgpu(3)]), 3);
    assert_eq!(best_of(vec![cpu(1), dgpu(3), igpu(2)]), 3);
    assert_eq!(best_of(vec![igpu(2), cpu(1), dgpu(3)]), 3);
    assert_eq!(best_of(vec![igpu(2), dgpu(3), cpu(1)]), 3);
    assert_eq!(best_of(vec![dgpu(3), cpu(1), igpu(2)]), 3);
    assert_eq!(best_of(vec![dgpu(3), igpu(2), cpu(1)]), 3);
}

#[test]
fn best_available_single_cpu_candidate() {
    assert_eq!(best_of(vec![entry(7, AdapterCategory::Cpu, "software")]), 7);
}

#[test]
fn best_available_tie_keeps_first_seen() {
    let adapters = vec![
        entry(1, AdapterCategory::DiscreteGpu, "first"),
        entry(2, AdapterCategory::DiscreteGpu, "second"),
    ];
    assert_eq!(best_of(adapters), 1);
}

#[test]
fn best_available_ranks_virtual_over_cpu() {
    let adapters = vec![
        entry(1, AdapterCategory::Cpu, "cpu"),
        entry(2, AdapterCategory::VirtualGpu, "virtual"),
    ];
    assert_eq!(best_of(adapters), 2);
}

#[test]
fn best_available_fails_on_empty_list() {
    let r = select_adapter(&LogicalDevice::BestAvailable, Vec::<PhysicalAdapter<u32>>::new());
    match r {
        Ok(_) => panic!("nothing to select from"),
        Err(f) => {
            assert_eq!(f.requested, LogicalDevice::BestAvailable);
            assert!(f.primary.is_empty());
            assert!(f.fallback.is_empty());
        }
    }
}

#[test]
fn best_available_ignores_fallback_bucket() {
    // An unclassified adapter never enters the primary bucket, and the
    // best-available request only ranks the primary bucket.
    let adapters = vec![entry(1, AdapterCategory::Unclassified, "mystery")];
    let r = select_adapter(&LogicalDevice::BestAvailable, adapters);
    assert!(r.is_err());
}

#[test]
fn second_discrete_requested_but_only_one_present() {
    let adapters = vec![entry(1, AdapterCategory::DiscreteGpu, "only")];
    let r = select_adapter(&LogicalDevice::DiscreteGpu(1), adapters);
    match r {
        Ok(_) => panic!("there is no second discrete GPU"),
        Err(f) => {
            assert_eq!(f.requested, LogicalDevice::DiscreteGpu(1));
            assert_eq!(f.primary.len(), 1);
            assert_eq!(f.primary[0].name, "only");
            assert!(f.fallback.is_empty());
        }
    }
}

#[test]
fn unclassified_fallback_serves_discrete_request() {
    // Primary bucket empty, one unclassified adapter: the fallback bucket
    // answers the request.
    let adapters = vec![entry(9, AdapterCategory::Unclassified, "probably-discrete")];
    match select_adapter(&LogicalDevice::DiscreteGpu(0), adapters) {
        Ok(chosen) => {
            assert_eq!(chosen.handle, 9);
            assert_eq!(chosen.category, AdapterCategory::Unclassified);
        }
        Err(_) => panic!("fallback adapter should be chosen"),
    }
}

#[test]
fn indexed_request_takes_nth_of_category() {
    let adapters = vec![
        entry(1, AdapterCategory::DiscreteGpu, "a"),
        entry(2, AdapterCategory::Cpu, "cpu"),
        entry(3, AdapterCategory::DiscreteGpu, "b"),
    ];
    match select_adapter(&LogicalDevice::DiscreteGpu(1), adapters) {
        Ok(chosen) => assert_eq!(chosen.handle, 3),
        Err(_) => panic!("second discrete GPU exists"),
    }
}

#[test]
fn cpu_request_takes_first_cpu() {
    let adapters = vec![
        entry(1, AdapterCategory::DiscreteGpu, "gpu"),
        entry(2, AdapterCategory::Cpu, "cpu-a"),
        entry(3, AdapterCategory::Cpu, "cpu-b"),
    ];
    match select_adapter(&LogicalDevice::Cpu, adapters) {
        Ok(chosen) => assert_eq!(chosen.handle, 2),
        Err(_) => panic!("a CPU adapter exists"),
    }
}

#[test]
fn failure_diagnostic_lists_both_buckets() {
    let adapters = vec![
        entry(1, AdapterCategory::DiscreteGpu, "gpu"),
        entry(2, AdapterCategory::Unclassified, "other"),
    ];
    match select_adapter(&LogicalDevice::DiscreteGpu(2), adapters) {
        Ok(_) => panic!("there is no third discrete GPU"),
        Err(f) => {
            assert_eq!(f.primary.len(), 1);
            assert_eq!(f.primary[0].category, AdapterCategory::DiscreteGpu);
            assert_eq!(f.primary[0].name, "gpu");
            assert_eq!(f.fallback.len(), 1);
            assert_eq!(f.fallback[0].category, AdapterCategory::Unclassified);
            assert_eq!(f.fallback[0].name, "other");
        }
    }
}

#[test]
fn integrated_request_ignores_other_categories() {
    let adapters = vec![
        entry(1, AdapterCategory::DiscreteGpu, "gpu"),
        entry(2, AdapterCategory::IntegratedGpu, "igpu"),
    ];
    match select_adapter(&LogicalDevice::IntegratedGpu(0), adapters) {
        Ok(chosen) => assert_eq!(chosen.handle, 2),
        Err(_) => panic!("an integrated GPU exists"),
    }
}
