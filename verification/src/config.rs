//! Application configuration.

use vstd::prelude::*;

use crate::transport::handler;

verus! {

/// Top-level application configuration.
#[derive(Debug, Clone)]
pub struct AppConfig {
    pub transports: Vec<TransportConfig>,
}

impl Default for AppConfig {
    fn default() -> (config: Self)
        ensures
            config.transports@.len() == 0,
    {
        AppConfig { transports: Vec::new() }
    }
}

/// Per-transport configuration entry.
#[derive(Debug, Clone)]
pub enum TransportConfig {
    Can(CanConfig),
    Udp(UdpConfig),
    Serial(SerialConfig),
}

/// CAN transport configuration (SocketCAN or gs_usb).
#[derive(Debug, Clone)]
pub struct CanConfig {
    /// Human-readable name for log messages and REPL commands.
    pub name: String,
    /// Which CAN backend to use.
    pub driver: CanDriver,
    /// Cyphal node ID for this transport (0–127).
    pub node_id: u8,
    /// SocketCAN interface name (e.g. "can0"). Required when the driver is SocketCAN.
    pub interface: Option<String>,
    /// gs_usb device index (0-based) when multiple adapters are attached.
    pub usb_index: u32,
    /// Override USB vendor ID (hex string such as "0x1d50"). Optional.
    pub vid: Option<String>,
    /// Override USB product ID (hex string such as "0x606f"). Optional.
    pub pid: Option<String>,
    /// CAN bus bitrate in bit/s (e.g. 1000000 for 1 Mbit/s). Defaults to 1 Mbit/s.
    pub bitrate: u32,
    /// Enable CAN FD mode. Defaults to false.
    pub fd: bool,
}

/// The CAN bus bitrate where none is configured.
pub fn default_bitrate() -> (bitrate: u32)
    ensures
        bitrate == 1_000_000,
{
    1_000_000
}

/// Which CAN hardware driver to use.
#[derive(Debug, Clone, Copy, PartialEq, Eq, Structural)]
pub enum CanDriver {
    /// Linux SocketCAN (Linux only). Requires the `gs_usb` kernel module for USB adapters.
    Socketcan,
    /// Direct userspace gs_usb/candleLight USB driver (all platforms).
    Gsusb,
}

/// Cyphal/UDP transport configuration.
#[derive(Debug, Clone)]
pub struct UdpConfig {
    /// Human-readable name.
    pub name: String,
    /// Cyphal node ID for this transport (0–65534).
    pub node_id: u16,
    /// Local interface IP address to bind to (e.g. "192.168.1.50").
    pub interface: String,
    /// UDP port. Defaults to the standard Cyphal UDP port 9382.
    pub port: Option<u16>,
    /// Whether to assign node IDs on this transport. Defaults to false.
    pub pnp_enabled: bool,
    /// Where the allocation table is kept. Optional.
    pub pnp_db_path: Option<String>,
}

/// Cyphal/Serial transport configuration.
#[derive(Debug, Clone)]
pub struct SerialConfig {
    /// Human-readable name.
    pub name: String,
    /// Cyphal node ID for this transport (0–65534).
    pub node_id: u16,
    /// Serial port path (e.g. "/dev/ttyUSB0" on Linux, "/dev/cu.usbmodem…" on macOS).
    pub port: String,
    /// Serial baud rate. Defaults to 115200.
    pub baud_rate: u32,
}

/// The serial baud rate where none is configured.
pub fn default_baud_rate() -> (baud_rate: u32)
    ensures
        baud_rate == 115_200,
{
    115_200
}

/// Where the allocation table of a transport is kept: where the configuration says,
/// or else in a file of the service's own, named after the transport.
pub fn effective_pnp_db_path(transport_name: &str, configured: Option<&str>) -> (path: String)
    ensures
        path@ == (match configured {
            Some(p) => p@,
            None => "/var/lib/cyphal_service/pnp_"@ + transport_name@ + ".db"@,
        }),
{
    match configured {
        Some(p) => p.to_owned(),
        None => {
            let mut path = handler::detail_text("/var/lib/cyphal_service/pnp_", transport_name);
            path.append(".db");
            path
        },
    }
}

/// Which worker serves a transport.
#[derive(Debug, Clone, Copy, PartialEq, Eq, Structural)]
pub enum WorkerKind {
    Gsusb,
    Socketcan,
    Udp,
    Serial,
}

impl TransportConfig {
    /// The worker that serves this transport.
    pub fn worker_kind(&self) -> (kind: WorkerKind)
        ensures
            kind == (match *self {
                TransportConfig::Can(c) => match c.driver {
                    CanDriver::Gsusb => WorkerKind::Gsusb,
                    CanDriver::Socketcan => WorkerKind::Socketcan,
                },
                TransportConfig::Udp(_) => WorkerKind::Udp,
                TransportConfig::Serial(_) => WorkerKind::Serial,
            }),
    {
        match self {
            TransportConfig::Can(c) => match c.driver {
                CanDriver::Gsusb => WorkerKind::Gsusb,
                CanDriver::Socketcan => WorkerKind::Socketcan,
            },
            TransportConfig::Udp(_) => WorkerKind::Udp,
            TransportConfig::Serial(_) => WorkerKind::Serial,
        }
    }
}

} // verus!
