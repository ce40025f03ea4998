//! Lifecycle management for GPU compute backends: deterministic selection of
//! a physical adapter for a logical device descriptor, one-shot construction
//! of a command-serializing server per descriptor, and cloneable client
//! handles to it.

pub mod adapter;
pub mod backend;
pub mod config;
pub mod device;
pub mod lifecycle;
pub mod memory;
pub mod registry;
pub mod server;
