//! Service logic for Cyphal networks: node discovery, plug-and-play node-ID
//! allocation, transport bookkeeping and the interactive command set.

pub mod cli;
pub mod clock;
pub mod commands;
pub mod config;
pub mod pnp;
pub mod text;
pub mod transport;
pub mod wire;
