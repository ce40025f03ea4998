use vstd::prelude::*;

use crate::adapter::AdapterCategory;

verus! {

/// Which graphics API family the embedding program wants adapters from.
#[derive(Clone, Copy, PartialEq, Eq, Structural, Debug)]
pub enum GraphicsBackend {
    Vulkan,
    Gl,
    Metal,
    Dx12,
    WebGpu,
    All,
}

#[verifier::external_type_specification]
#[verifier::external_body]
pub struct ExInstance(wgpu::Instance);

#[verifier::external_type_specification]
#[verifier::external_body]
pub struct ExAdapter(wgpu::Adapter);

#[verifier::external_type_specification]
#[verifier::external_body]
pub struct ExDevice(wgpu::Device);

#[verifier::external_type_specification]
#[verifier::external_body]
pub struct ExQueue(wgpu::Queue);

#[verifier::external_type_specification]
#[verifier::external_body]
pub struct ExLimits(wgpu::Limits);

#[verifier::external_type_specification]
#[verifier::external_body]
pub struct ExRequestDeviceError(wgpu::RequestDeviceError);

/// Relies on wgpu::Instance::default to set up an instance over the
/// backends enabled for this build.
#[verifier::external_body]
pub(crate) fn new_instance() -> wgpu::Instance {
    wgpu::Instance::default()
}

/// Relies on wgpu::Instance::enumerate_adapters to list the machine's
/// physical adapters for the chosen backends, and on pollster::block_on to
/// drive the returned future to completion synchronously. The list depends
/// on the hardware, so nothing is promised of it.
#[verifier::external_body]
pub(crate) fn enumerate_adapters(instance: &wgpu::Instance, backend: GraphicsBackend) -> Vec<
    wgpu::Adapter,
> {
    pollster::block_on(
        instance.enumerate_adapters(
            match backend {
                GraphicsBackend::Vulkan => wgpu::Backends::VULKAN,
                GraphicsBackend::Gl => wgpu::Backends::GL,
                GraphicsBackend::Metal => wgpu::Backends::METAL,
                GraphicsBackend::Dx12 => wgpu::Backends::DX12,
                GraphicsBackend::WebGpu => wgpu::Backends::BROWSER_WEBGPU,
                GraphicsBackend::All => wgpu::Backends::all(),
            },
        ),
    )
}

/// Relies on wgpu::Adapter::get_info for the adapter's reported device type
/// and name; each reported type maps to exactly one category, the unknown
/// type to `Unclassified`. What the hardware reports is not promised.
#[verifier::external_body]
pub(crate) fn probe_adapter(adapter: &wgpu::Adapter) -> (AdapterCategory, String) {
    let info = adapter.get_info();
    let category = match info.device_type {
        wgpu::DeviceType::DiscreteGpu => AdapterCategory::DiscreteGpu,
        wgpu::DeviceType::IntegratedGpu => AdapterCategory::IntegratedGpu,
        wgpu::DeviceType::VirtualGpu => AdapterCategory::VirtualGpu,
        wgpu::DeviceType::Cpu => AdapterCategory::Cpu,
        wgpu::DeviceType::Other => AdapterCategory::Unclassified,
    };
    (category, info.name)
}

/// Relies on wgpu::Adapter::limits: the best limits the adapter supports,
/// which the device request then asks for verbatim.
#[verifier::external_body]
pub(crate) fn adapter_limits(adapter: &wgpu::Adapter) -> wgpu::Limits {
    adapter.limits()
}

/// Relies on wgpu::Adapter::request_device, called once per adapter, with an
/// empty feature set and the limits the adapter itself reported — which
/// rules out the descriptor-dependent aborts its documentation lists (an
/// adapter below wgpu's own operating baseline still aborts there, which
/// matches the fatal-on-failure bootstrap) — and on pollster::block_on to
/// bridge the one-shot asynchronous handshake into a blocking call. Whether
/// the hardware grants the device is not promised.
#[verifier::external_body]
pub(crate) fn request_device_blocking(adapter: wgpu::Adapter, limits: wgpu::Limits) -> Result<
    (wgpu::Device, wgpu::Queue),
    wgpu::RequestDeviceError,
> {
    let descriptor = wgpu::DeviceDescriptor {
        label: None,
        required_features: wgpu::Features::empty(),
        required_limits: limits,
        ..wgpu::DeviceDescriptor::default()
    };
    pollster::block_on(adapter.request_device(&descriptor))
}

} // verus!
