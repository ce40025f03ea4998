use vstd::prelude::*;

use std::sync::Arc;

use vstd::rwlock::{RwLock, RwLockPredicate};

use crate::memory::MemoryConfig;

verus! {

/// The unit of serialization for one logical device: the granted device and
/// command queue, the memory-management policy, and the backpressure bound
/// on in-flight command batches. Once constructed, a server is never
/// rebound to other hardware; only the managed memory's allocation state —
/// which the allocation collaborator owns — changes over its lifetime.
pub struct WgpuServer {
    pub device: wgpu::Device,
    pub queue: wgpu::Queue,
    pub memory: MemoryConfig,
    pub max_tasks: usize,
}

impl WgpuServer {
    /// A server always has a usable memory policy and room for at least one
    /// in-flight task.
    pub open spec fn wf(self) -> bool {
        &&& self.memory.wf()
        &&& self.max_tasks >= 1
    }

    pub fn new(memory: MemoryConfig, device: wgpu::Device, queue: wgpu::Queue, max_tasks: usize) -> (s:
        WgpuServer)
        ensures
            s.memory == memory,
            s.device == device,
            s.queue == queue,
            s.max_tasks == max_tasks,
    {
        WgpuServer { device, queue, memory, max_tasks }
    }
}

/// Lock predicate tying a channel to the one server it was built around:
/// nothing but that very server value can ever sit inside the lock.
pub struct ServerBinding {
    pub server: WgpuServer,
}

impl RwLockPredicate<WgpuServer> for ServerBinding {
    open spec fn inv(self, v: WgpuServer) -> bool {
        v == self.server
    }
}

/// Mutual-exclusion boundary around one server. All access to the server
/// goes through the lock, so command issuance through a channel is
/// serialized in lock-acquisition order.
pub struct Channel {
    lock: RwLock<WgpuServer, ServerBinding>,
}

impl Channel {
    /// The channel was built around exactly the server `s`.
    pub closed spec fn wraps(self, s: WgpuServer) -> bool {
        self.lock.pred() == (ServerBinding { server: s })
    }

    /// Wrap a freshly constructed server behind the lock.
    pub fn new(server: WgpuServer) -> (c: Channel)
        ensures
            c.wraps(server),
    {
        let ghost binding = ServerBinding { server };
        Channel { lock: RwLock::new(server, Ghost(binding)) }
    }

    /// The server's backpressure bound, read under the lock.
    pub fn max_in_flight(&self) -> (r: usize)
        ensures
            forall|s: WgpuServer| self.wraps(s) ==> r == s.max_tasks,
    {
        let handle = self.lock.acquire_read();
        let r = handle.borrow().max_tasks;
        handle.release_read();
        r
    }

    /// A channel wraps a single server value.
    pub proof fn lemma_wraps_unique(self, s1: WgpuServer, s2: WgpuServer)
        requires
            self.wraps(s1),
            self.wraps(s2),
        ensures
            s1 == s2,
    {
    }
}

/// Cloneable handle to one server's channel. Many clients may reference the
/// same channel; cloning a client never constructs hardware state.
pub struct ComputeClient {
    channel: Arc<Channel>,
}

/// Relies on alloc::sync::Arc::clone, which hands back a reference to the
/// same allocation, so the clone is the same channel value.
#[verifier::external_body]
fn share_channel(c: &Arc<Channel>) -> (r: Arc<Channel>)
    ensures
        r == *c,
{
    Arc::clone(c)
}

impl ComputeClient {
    /// The channel this handle submits through.
    pub closed spec fn channel_view(self) -> Channel {
        *self.channel
    }

    /// The handle reaches exactly the server `s`.
    pub open spec fn wraps(self, s: WgpuServer) -> bool {
        self.channel_view().wraps(s)
    }

    pub fn new(channel: Channel) -> (c: ComputeClient)
        ensures
            c.channel_view() == channel,
    {
        ComputeClient { channel: Arc::new(channel) }
    }

    /// The backpressure bound of the server this handle reaches.
    pub fn max_in_flight(&self) -> (r: usize)
        ensures
            forall|s: WgpuServer| self.wraps(s) ==> r == s.max_tasks,
    {
        self.channel.max_in_flight()
    }
}

impl Clone for ComputeClient {
    /// Cloning shares the channel: the clone reaches the very same server.
    fn clone(&self) -> (r: ComputeClient)
        ensures
            r == *self,
    {
        ComputeClient { channel: share_channel(&self.channel) }
    }
}

} // verus!
