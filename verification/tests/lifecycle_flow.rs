use wgpu_compute::adapter::PhysicalAdapter;
use wgpu_compute::backend::GraphicsBackend;
use wgpu_compute::device::LogicalDevice;
use wgpu_compute::lifecycle::{build_client, compute_client, InitError};
use wgpu_compute::registry::Registry;
use wgpu_compute::server::ComputeClient;

#[test]
fn no_adapters_is_a_selection_failure() {
    let probes: Vec<PhysicalAdapter<wgpu::Adapter>> = Vec::new();
    match build_client(&LogicalDevice::Cpu, probes, None) {
        Err(InitError::Selection(f)) => {
            assert_eq!(f.requested, LogicalDevice::Cpu);
            assert!(f.primary.is_empty());
            assert!(f.fallback.is_empty());
        }
        _ => panic!("an empty adapter list cannot serve a CPU request"),
    }
}

#[test]
fn selection_is_checked_before_the_override() {
    // With nothing to select, the selection failure surfaces even though the
    // override is also malformed.
    let probes: Vec<PhysicalAdapter<wgpu::Adapter>> = Vec::new();
    match build_client(&LogicalDevice::BestAvailable, probes, Some("abc")) {
        Err(InitError::Selection(_)) => {}
        _ => panic!("selection runs first"),
    }
}

#[test]
fn bad_override_never_yields_a_client() {
    // Whatever hardware this machine has, a malformed override can only end
    // in a selection failure (nothing matched) or a configuration failure —
    // never in a constructed client.
    let mut registry: Registry<ComputeClient> = Registry::new();
    match compute_client(
        &mut registry,
        GraphicsBackend::All,
        &LogicalDevice::BestAvailable,
        Some("abc"),
    ) {
        Ok(_) => panic!("a client must not be built under a malformed override"),
        Err(InitError::Config(e)) => assert_eq!(e.given, "abc"),
        Err(InitError::Selection(_)) => {}
        Err(InitError::Bootstrap(_)) => panic!("the handshake must not run"),
    }
}

#[test]
fn same_descriptor_is_served_the_same_client() {
    let mut registry: Registry<ComputeClient> = Registry::new();
    let first = compute_client(&mut registry, GraphicsBackend::All, &LogicalDevice::Cpu, None);
    let second = compute_client(&mut registry, GraphicsBackend::All, &LogicalDevice::Cpu, None);
    match (first, second) {
        (Ok(a), Ok(b)) => {
            // The second request hits the cache: both handles reach the same
            // server, so they agree on its configuration.
            assert_eq!(a.max_in_flight(), b.max_in_flight());
            assert_eq!(a.max_in_flight(), 64);
        }
        (Err(_), Err(_)) => {
            // No CPU adapter on this machine: nothing was cached.
            assert!(registry.lookup(&LogicalDevice::Cpu).is_none());
        }
        _ => panic!("two identical requests must agree"),
    }
}

#[test]
fn failed_construction_caches_nothing() {
    let mut registry: Registry<ComputeClient> = Registry::new();
    // A request for a sixteenth discrete GPU is safely unsatisfiable here.
    let device = LogicalDevice::DiscreteGpu(15);
    let r = compute_client(&mut registry, GraphicsBackend::All, &device, None);
    if r.is_err() {
        assert!(registry.lookup(&device).is_none());
    }
}
