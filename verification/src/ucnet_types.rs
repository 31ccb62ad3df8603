//! UCNet device descriptions and connection bookkeeping types.

use vstd::prelude::*;
use vstd::string::StringExecFns;

verus! {

/// How a UCNet device is reached.
#[derive(Debug, Clone, Copy, PartialEq, Eq, Structural)]
pub enum ConnectionType {
    /// Over the network (UDP discovery, TCP control).
    Network,
    /// Over USB.
    Usb,
}

/// Lifecycle state of a device connection.
#[derive(Debug, Clone, Copy, PartialEq, Eq, Structural)]
pub enum ConnectionState {
    /// Discovered but not connected.
    Discovered,
    /// Connection attempt in progress.
    Connecting,
    /// Connected.
    Connected,
    /// Connection lost.
    Disconnected,
    /// Connection attempt failed.
    Failed,
}

/// Events a connection table emits.
#[derive(Debug)]
pub enum ConnectionEvent {
    /// A device connected.
    Connected(String),
    /// A device disconnected.
    Disconnected(String),
    /// A connection attempt failed: device id, reason.
    Failed(String, String),
    /// A keep-alive was sent to a device.
    KeepaliveSent(String),
    /// A device missed its keep-alive window.
    KeepaliveTimeout(String),
}

/// A discovered UCNet device.
#[derive(Debug, PartialEq)]
pub struct UcNetDevice {
    /// Unique identifier.
    pub id: String,
    /// Model name, e.g. "StudioLive 32SX".
    pub model: String,
    /// Firmware version.
    pub firmware_version: String,
    /// How the device is reached.
    pub connection_type: ConnectionType,
    /// Current connection state.
    pub state: ConnectionState,
    /// Transport identifier: an IP address or a USB path.
    pub identifier: String,
}

impl Clone for UcNetDevice {
    fn clone(&self) -> (r: Self)
        ensures
            r == *self,
    {
        UcNetDevice {
            id: self.id.clone(),
            model: self.model.clone(),
            firmware_version: self.firmware_version.clone(),
            connection_type: self.connection_type,
            state: self.state,
            identifier: self.identifier.clone(),
        }
    }
}

/// A device found by network discovery.
#[derive(Debug)]
pub struct NetworkDeviceInfo {
    /// IP address the advertisement came from, in textual form.
    pub ip_addr: String,
    /// UDP port of the advertisement.
    pub port: u16,
    /// Model name.
    pub model: String,
    /// Firmware version.
    pub firmware_version: String,
    /// Serial number or other unique id.
    pub device_id: String,
}

/// A device found by USB enumeration.
#[derive(Debug)]
pub struct UsbDeviceInfo {
    /// USB vendor id, 0x194F for PreSonus.
    pub vendor_id: u16,
    /// USB product id.
    pub product_id: u16,
    /// Model name.
    pub model: String,
    /// Firmware version.
    pub firmware_version: String,
    /// USB path identifying the device.
    pub device_path: String,
}

/// Keep-alive interval, in seconds.
pub const KEEPALIVE_INTERVAL_SECS: u64 = 5;

/// Discovery listening window, in seconds.
pub const DISCOVERY_TIMEOUT_SECS: u64 = 2;

/// Longest silence before a connection counts as lost, in seconds.
pub const CONNECTION_TIMEOUT_SECS: u64 = 15;

/// Vendor id of Fender, whose id some PreSonus devices carry.
pub const FENDER_VENDOR_ID: u16 = 0x1ED8;

/// Whether a USB product id belongs to a UCNet-capable device. The Quantum
/// interfaces are the only USB UCNet devices; Series III mixers use network
/// UCNet, and FaderPort controllers speak MIDI, not UCNet.
pub fn is_ucnet_device(product_id: u16) -> (r: bool)
    ensures
        r == (product_id == 0x8186 || product_id == 0x8187 || product_id == 0x8188 || product_id
            == 0x8189 || product_id == 0x020E),
{
    product_id == 0x8186 || product_id == 0x8187 || product_id == 0x8188 || product_id == 0x8189
        || product_id == 0x020E
}

impl UcNetDevice {
    /// A device record for a network discovery result: the id is `net-`
    /// followed by the discovered id, and the transport identifier is the IP
    /// address.
    pub fn from_network(info: NetworkDeviceInfo) -> (r: Self)
        ensures
            r.id@ == "net-"@ + info.device_id@,
            r.model == info.model,
            r.firmware_version == info.firmware_version,
            r.connection_type == ConnectionType::Network,
            r.state == ConnectionState::Discovered,
            r.identifier == info.ip_addr,
    {
        UcNetDevice {
            id: String::from_str("net-").concat(info.device_id.as_str()),
            model: info.model,
            firmware_version: info.firmware_version,
            connection_type: ConnectionType::Network,
            state: ConnectionState::Discovered,
            identifier: info.ip_addr,
        }
    }

    /// A device record for a USB enumeration result: the id is `usb-`
    /// followed by the device path, which is also the transport identifier.
    pub fn from_usb(info: UsbDeviceInfo) -> (r: Self)
        ensures
            r.id@ == "usb-"@ + info.device_path@,
            r.model == info.model,
            r.firmware_version == info.firmware_version,
            r.connection_type == ConnectionType::Usb,
            r.state == ConnectionState::Discovered,
            r.identifier == info.device_path,
    {
        UcNetDevice {
            id: String::from_str("usb-").concat(info.device_path.as_str()),
            model: info.model,
            firmware_version: info.firmware_version,
            connection_type: ConnectionType::Usb,
            state: ConnectionState::Discovered,
            identifier: info.device_path,
        }
    }
}

} // verus!
