use vstd::prelude::*;

use crate::adapter::{
    failure_matches, select_adapter, selection, AdapterSummary, PhysicalAdapter,
    SelectionFailure,
};
use crate::backend::{
    adapter_limits, enumerate_adapters, new_instance, probe_adapter, request_device_blocking,
    GraphicsBackend,
};
use crate::config::{
    max_in_flight_tasks, spec_max_tasks, spec_override_view, ConfigFailure,
};
use crate::device::LogicalDevice;
use crate::memory::{spec_server_memory_config, MemoryConfig};
use crate::registry::{serve_step, Registry};
use crate::server::{Channel, ComputeClient, WgpuServer};

verus! {

/// The device/queue handshake for the selected adapter failed; carries the
/// adapter's identity and the underlying API error.
pub struct BootstrapFailure {
    pub adapter: AdapterSummary,
    pub source: wgpu::RequestDeviceError,
}

/// Why constructing a client for a logical device failed. All three are
/// unrecoverable by design: a missing adapter, a refused handshake or a
/// malformed configuration is a deployment-time condition, not a transient
/// one.
pub enum InitError {
    Selection(SelectionFailure),
    Config(ConfigFailure),
    Bootstrap(BootstrapFailure),
}

/// What constructing a client from the enumerated adapter list `probes`
/// must yield for descriptor `d` and task-bound override `ov`:
///
/// - no adapter answers the request: a selection failure listing every
///   adapter considered;
/// - otherwise a bad override: a configuration failure carrying the text;
/// - otherwise, since only the hardware decides the handshake: either a
///   client whose server carries the fixed memory policy and the resolved
///   task bound, or a bootstrap failure naming the chosen adapter.
pub open spec fn spec_build_outcome(
    probes: Seq<PhysicalAdapter<wgpu::Adapter>>,
    d: LogicalDevice,
    ov: Option<Seq<char>>,
    r: Result<ComputeClient, InitError>,
) -> bool {
    match selection(d, probes) {
        None => r matches Err(InitError::Selection(f)) && failure_matches(f, d, probes),
        Some(chosen) => match spec_max_tasks(ov) {
            None => r matches Err(InitError::Config(e)) && ov matches Some(t) && e.given@
                == t,
            Some(n) => match r {
                Ok(c) => exists|s: WgpuServer|
                    c.wraps(s) && s.max_tasks == n && s.memory
                        == spec_server_memory_config() && s.wf(),
                Err(e) => e matches InitError::Bootstrap(b) && b.adapter.category
                    == chosen.category && b.adapter.name == chosen.name,
            },
        },
    }
}

/// Perform the one-shot device/queue handshake for an already selected
/// adapter, blocking until it completes. The adapter's identity travels
/// with the outcome: into the returned triple on success, into the failure
/// diagnostic otherwise. Whether the hardware grants the device only the
/// handshake decides.
pub fn bootstrap_device(chosen: PhysicalAdapter<wgpu::Adapter>) -> (r: Result<
    (wgpu::Device, wgpu::Queue, AdapterSummary),
    BootstrapFailure,
>)
    ensures
        match r {
            Ok(granted) => granted.2.category == chosen.category && granted.2.name
                == chosen.name,
            Err(b) => b.adapter.category == chosen.category && b.adapter.name == chosen.name,
        },
{
    let PhysicalAdapter { handle, category, name } = chosen;
    let limits = adapter_limits(&handle);
    match request_device_blocking(handle, limits) {
        Ok((device_handle, queue)) => Ok(
            (device_handle, queue, AdapterSummary { category, name }),
        ),
        Err(source) => Err(
            BootstrapFailure { adapter: AdapterSummary { category, name }, source },
        ),
    }
}

/// Select the physical adapter for `device` out of the enumerated list and
/// bootstrap it into a ready device/queue pair. Exactly the adapter that
/// [`select_adapter`] picks is handed to the handshake; a configuration
/// failure cannot arise here.
pub fn select_device(
    device: &LogicalDevice,
    probes: Vec<PhysicalAdapter<wgpu::Adapter>>,
) -> (r: Result<(wgpu::Device, wgpu::Queue, AdapterSummary), InitError>)
    ensures
        match selection(*device, probes@) {
            None => r matches Err(InitError::Selection(f)) && failure_matches(
                f,
                *device,
                probes@,
            ),
            Some(chosen) => match r {
                Ok(granted) => granted.2.category == chosen.category && granted.2.name
                    == chosen.name,
                Err(e) => e matches InitError::Bootstrap(b) && b.adapter.category
                    == chosen.category && b.adapter.name == chosen.name,
            },
        },
{
    let chosen = match select_adapter(device, probes) {
        Ok(a) => a,
        Err(f) => {
            return Err(InitError::Selection(f));
        },
    };
    match bootstrap_device(chosen) {
        Ok(granted) => Ok(granted),
        Err(b) => Err(InitError::Bootstrap(b)),
    }
}

/// Construct the client for `device` out of an already-enumerated adapter
/// list: select the adapter, resolve the task bound, perform the blocking
/// device handshake, and wire memory policy, server and channel together.
pub fn build_client(
    device: &LogicalDevice,
    probes: Vec<PhysicalAdapter<wgpu::Adapter>>,
    override_text: Option<&str>,
) -> (r: Result<ComputeClient, InitError>)
    ensures
        spec_build_outcome(probes@, *device, spec_override_view(override_text), r),
{
    let chosen = match select_adapter(device, probes) {
        Ok(a) => a,
        Err(f) => {
            return Err(InitError::Selection(f));
        },
    };
    let max_tasks = match max_in_flight_tasks(override_text) {
        Ok(n) => n,
        Err(e) => {
            return Err(InitError::Config(e));
        },
    };
    let (device_handle, queue, _granted) = match bootstrap_device(chosen) {
        Ok(granted) => granted,
        Err(b) => {
            return Err(InitError::Bootstrap(b));
        },
    };
    let memory = MemoryConfig::server_default();
    let server = WgpuServer::new(memory, device_handle, queue, max_tasks);
    let ghost built = server;
    let channel = Channel::new(server);
    let client = ComputeClient::new(channel);
    proof {
        assert(client.wraps(built));
        assert(built.wf());
        assert(exists|s: WgpuServer|
            client.wraps(s) && s.max_tasks == max_tasks && s.memory
                == spec_server_memory_config() && s.wf());
    }
    Ok(client)
}

/// List the machine's physical adapters for the chosen backends, each with
/// the category and name it reports. The list reflects whatever hardware
/// the graphics API finds, in its enumeration order; selection is a
/// deterministic function of this list.
pub fn enumerate_probes(backend: GraphicsBackend) -> (probes: Vec<
    PhysicalAdapter<wgpu::Adapter>,
>) {
    let instance = new_instance();
    let mut raw = enumerate_adapters(&instance, backend);
    let mut probes: Vec<PhysicalAdapter<wgpu::Adapter>> = Vec::new();
    while raw.len() > 0
        decreases raw.len(),
    {
        let a = raw.remove(0);
        let (category, name) = probe_adapter(&a);
        probes.push(PhysicalAdapter { handle: a, category, name });
    }
    probes
}

/// Obtain the compute client for a logical device, constructing it on first
/// use: a cache hit hands out another handle to the cached client and
/// changes nothing; a miss enumerates the machine's adapters, builds the
/// client as [`build_client`] specifies, and caches it, so that every later
/// request for the same descriptor is served the same client.
pub fn compute_client(
    registry: &mut Registry<ComputeClient>,
    backend: GraphicsBackend,
    device: &LogicalDevice,
    override_text: Option<&str>,
) -> (r: Result<ComputeClient, InitError>)
    requires
        old(registry).wf(),
    ensures
        final(registry).wf(),
        old(registry)@.contains_key(*device) ==> (r matches Ok(c) && c == old(registry)@[*device]
            && final(registry)@ == old(registry)@),
        r matches Ok(c) ==> ({
            let stepped = serve_step(old(registry)@, *device, c);
            final(registry)@ == stepped.0 && c == stepped.1
        }),
        !old(registry)@.contains_key(*device) ==> ({
            &&& match r {
                Ok(c) => final(registry)@ == old(registry)@.insert(*device, c),
                Err(_) => final(registry)@ == old(registry)@,
            }
            &&& exists|probes: Seq<PhysicalAdapter<wgpu::Adapter>>|
                spec_build_outcome(probes, *device, spec_override_view(override_text), r)
        }),
{
    if let Some(cached) = registry.lookup(device) {
        return Ok(cached.clone());
    }
    let probes = enumerate_probes(backend);
    let ghost enumerated = probes@;
    let ghost ov = spec_override_view(override_text);
    match build_client(device, probes, override_text) {
        Ok(client) => {
            let shared = client.clone();
            registry.insert(*device, shared);
            proof {
                assert(spec_build_outcome(enumerated, *device, ov, Ok(client)));
            }
            Ok(client)
        },
        Err(e) => {
            proof {
                assert(spec_build_outcome(
                    enumerated,
                    *device,
                    ov,
                    Err::<ComputeClient, InitError>(e),
                ));
            }
            Err(e)
        },
    }
}

} // verus!
