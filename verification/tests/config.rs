use cyphal_service::config::{
    default_baud_rate, default_bitrate, effective_pnp_db_path, AppConfig, CanConfig, CanDriver,
    SerialConfig, TransportConfig, UdpConfig, WorkerKind,
};

#[test]
fn test_default_config() {
    let cfg = AppConfig::default();
    assert!(cfg.transports.is_empty());
}

#[test]
fn test_default_rates() {
    assert_eq!(default_bitrate(), 1_000_000);
    assert_eq!(default_baud_rate(), 115_200);
}

#[test]
fn test_pnp_db_path() {
    assert_eq!(effective_pnp_db_path("udp", Some("/x/y.db")), "/x/y.db");
    assert_eq!(
        effective_pnp_db_path("udp", None),
        "/var/lib/cyphal_service/pnp_udp.db"
    );
}

#[test]
fn test_worker_kinds() {
    let can = |driver: CanDriver| {
        TransportConfig::Can(CanConfig {
            name: "can".to_string(),
            driver,
            node_id: 42,
            interface: None,
            usb_index: 0,
            vid: None,
            pid: None,
            bitrate: default_bitrate(),
            fd: false,
        })
    };
    assert_eq!(can(CanDriver::Gsusb).worker_kind(), WorkerKind::Gsusb);
    assert_eq!(can(CanDriver::Socketcan).worker_kind(), WorkerKind::Socketcan);
    let udp = TransportConfig::Udp(UdpConfig {
        name: "udp".to_string(),
        node_id: 100,
        interface: "127.0.0.1".to_string(),
        port: None,
        pnp_enabled: false,
        pnp_db_path: None,
    });
    assert_eq!(udp.worker_kind(), WorkerKind::Udp);
    let serial = TransportConfig::Serial(SerialConfig {
        name: "serial".to_string(),
        node_id: 200,
        port: "/dev/ttyUSB0".to_string(),
        baud_rate: default_baud_rate(),
    });
    assert_eq!(serial.worker_kind(), WorkerKind::Serial);
}
