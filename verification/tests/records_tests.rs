//! Tests of the device records and the stored type spellings.

use core::str::FromStr;
use faderbridge::db_types::{ConnectionType as DbConnectionType, DeviceType, TaperCurve};
use faderbridge::ucnet_types::{
    is_ucnet_device, ConnectionState, ConnectionType, NetworkDeviceInfo, UcNetDevice,
    UsbDeviceInfo,
};

#[test]
fn test_device_type_spellings() {
    assert_eq!(DeviceType::Midi.as_str(), "midi");
    assert_eq!(DeviceType::Ucnet.as_str(), "ucnet");
    assert_eq!(DeviceType::from_str("MIDI"), Ok(DeviceType::Midi));
    assert_eq!(DeviceType::from_str("ucnet"), Ok(DeviceType::Ucnet));
    assert!(DeviceType::from_str("serial").is_err());
}

#[test]
fn test_connection_type_spellings() {
    assert_eq!(DbConnectionType::Usb.as_str(), "usb");
    assert_eq!(DbConnectionType::Network.as_str(), "network");
    assert_eq!(DbConnectionType::Virtual.as_str(), "virtual");
    assert_eq!(DbConnectionType::from_str("Network"), Ok(DbConnectionType::Network));
    assert!(DbConnectionType::from_str("parallel").is_err());
}

#[test]
fn test_taper_curve_spellings() {
    assert_eq!(TaperCurve::Linear.as_str(), "linear");
    assert_eq!(TaperCurve::Logarithmic.as_str(), "logarithmic");
    assert_eq!(TaperCurve::Exponential.as_str(), "exponential");
    assert_eq!(TaperCurve::SCurve.as_str(), "s-curve");
    assert_eq!(TaperCurve::from_str("S-Curve"), Ok(TaperCurve::SCurve));
    assert!(TaperCurve::from_str("bent").is_err());
}

#[test]
fn test_is_ucnet_device() {
    assert!(is_ucnet_device(0x8186));
    assert!(is_ucnet_device(0x020E));
    // FaderPort controllers speak MIDI, not UCNet.
    assert!(!is_ucnet_device(0x1800));
}

#[test]
fn test_ucnet_device_from_network() {
    let info = NetworkDeviceInfo {
        ip_addr: "192.168.1.50".to_string(),
        port: 47809,
        model: "StudioLive 24R".to_string(),
        firmware_version: "Unknown".to_string(),
        device_id: "SL24R000001".to_string(),
    };
    let device = UcNetDevice::from_network(info);
    assert_eq!(device.id, "net-SL24R000001");
    assert_eq!(device.model, "StudioLive 24R");
    assert_eq!(device.connection_type, ConnectionType::Network);
    assert_eq!(device.state, ConnectionState::Discovered);
    assert_eq!(device.identifier, "192.168.1.50");
}

#[test]
fn test_ucnet_device_from_usb() {
    let info = UsbDeviceInfo {
        vendor_id: 0x194F,
        product_id: 0x8187,
        model: "Quantum HD 4".to_string(),
        firmware_version: "Unknown".to_string(),
        device_path: "1:4".to_string(),
    };
    let device = UcNetDevice::from_usb(info);
    assert_eq!(device.id, "usb-1:4");
    assert_eq!(device.connection_type, ConnectionType::Usb);
    assert_eq!(device.identifier, "1:4");
}
