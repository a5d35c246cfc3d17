//! Per-core reactor fleet and per-core nexus I/O channels of a storage
//! data-plane engine, modelled over plain values and verified.
pub mod nexus;
pub mod nexus_channel;
pub mod channel_laws;
pub mod error;
pub mod queues;
pub mod reactor;
pub mod fleet;
pub mod monitor;
pub mod reactor_laws;
