//! Tests of the connection table: registration, duplicate rejection, and
//! keep-alive timeouts.

use faderbridge::connection::{ConnectionManager, CONNECTION_TIMEOUT_MS};
use faderbridge::ucnet_types::{
    ConnectionEvent, ConnectionState, ConnectionType, NetworkDeviceInfo, UcNetDevice,
};

fn test_device(serial: &str) -> UcNetDevice {
    UcNetDevice::from_network(NetworkDeviceInfo {
        ip_addr: "192.168.1.60".to_string(),
        port: 47809,
        model: "StudioLive 32SX".to_string(),
        firmware_version: "Unknown".to_string(),
        device_id: serial.to_string(),
    })
}

#[test]
fn test_connect_and_state() {
    let mut manager = ConnectionManager::new();
    let device = test_device("A1");

    let event = manager.connect(device, 0).unwrap();
    assert!(matches!(event, ConnectionEvent::Connected(id) if id == "net-A1"));
    assert_eq!(manager.get_device_state("net-A1"), Some(ConnectionState::Connected));
    assert_eq!(manager.get_device_state("net-B2"), None);

    let devices = manager.get_connected_devices();
    assert_eq!(devices.len(), 1);
    assert_eq!(devices[0].connection_type, ConnectionType::Network);
}

#[test]
fn test_connect_twice_rejected() {
    let mut manager = ConnectionManager::new();
    manager.connect(test_device("A1"), 0).unwrap();
    assert!(manager.connect(test_device("A1"), 1).is_err());
    assert_eq!(manager.get_connected_devices().len(), 1);
}

#[test]
fn test_disconnect() {
    let mut manager = ConnectionManager::new();
    manager.connect(test_device("A1"), 0).unwrap();
    manager.connect(test_device("B2"), 0).unwrap();

    let event = manager.disconnect("net-A1").unwrap();
    assert!(matches!(event, ConnectionEvent::Disconnected(id) if id == "net-A1"));
    assert_eq!(manager.get_device_state("net-A1"), None);
    assert_eq!(manager.get_connected_devices().len(), 1);

    assert!(manager.disconnect("net-A1").is_err());
}

#[test]
fn test_keepalive_timeouts() {
    let mut manager = ConnectionManager::new();
    manager.connect(test_device("A1"), 0).unwrap();
    manager.connect(test_device("B2"), 0).unwrap();

    // A confirmed keep-alive keeps one device fresh past the window.
    manager.record_keepalive("net-B2", 10_000);

    let stale = manager.keepalive_timeouts(CONNECTION_TIMEOUT_MS + 1);
    assert_eq!(stale, vec!["net-A1".to_string()]);
    assert_eq!(manager.get_connected_devices().len(), 1);
    assert_eq!(manager.get_device_state("net-B2"), Some(ConnectionState::Connected));
}
