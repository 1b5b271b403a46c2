//! Plug-and-play node-ID allocation.
//!
//! A single, non-redundant allocator. Each transport interface keeps its own
//! allocation table in a SQLite database.
//!
//! Both message versions are served: `uavcan.pnp.NodeIDAllocationData.1.0` for
//! Classic CAN and `uavcan.pnp.NodeIDAllocationData.2.0` for CAN FD, UDP and
//! serial links.

pub mod allocator;
pub mod db;

pub use allocator::PnpAllocator;
pub use db::{AllocationDb, AllocationEntry};
