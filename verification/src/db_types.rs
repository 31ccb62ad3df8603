//! Record types of the persistence collaborator: projects, device
//! configurations and preferences, with their wire spellings.

use vstd::prelude::*;
use crate::strutil::{eq_ignore_ascii_case, spec_lower_code};

verus! {

/// A saved project configuration.
#[derive(Debug)]
pub struct Project {
    pub id: i64,
    pub name: String,
    pub description: Option<String>,
    pub created_at: String,
    pub updated_at: String,
    pub last_opened_at: Option<String>,
    pub is_active: bool,
}

/// A request to create a project.
#[derive(Debug)]
pub struct CreateProjectRequest {
    pub name: String,
    pub description: Option<String>,
}

/// A request to update a project.
#[derive(Debug)]
pub struct UpdateProjectRequest {
    pub id: i64,
    pub name: Option<String>,
    pub description: Option<String>,
}

/// The kind of a configured device.
#[derive(Debug, Clone, Copy, PartialEq, Eq, Structural)]
pub enum DeviceType {
    /// A MIDI controller.
    Midi,
    /// A UCNet mixer.
    Ucnet,
}

/// Whether two character sequences are equal with ASCII case folded.
pub open spec fn spec_eq_ignore_case(a: Seq<char>, b: Seq<char>) -> bool {
    a.len() == b.len() && (forall|j: int|
        0 <= j < a.len() ==> spec_lower_code(a[j]) == spec_lower_code(b[j]))
}

impl DeviceType {
    /// The stored spelling of the device type.
    pub fn as_str(&self) -> (r: &'static str)
        ensures
            match *self {
                DeviceType::Midi => r@ == "midi"@,
                DeviceType::Ucnet => r@ == "ucnet"@,
            },
    {
        match self {
            DeviceType::Midi => "midi",
            DeviceType::Ucnet => "ucnet",
        }
    }
}

impl core::str::FromStr for DeviceType {
    type Err = String;

    /// Parses a device type's spelling, ignoring ASCII case.
    fn from_str(s: &str) -> Result<Self, String> {
        if eq_ignore_ascii_case(s, "midi") {
            Ok(DeviceType::Midi)
        } else if eq_ignore_ascii_case(s, "ucnet") {
            Ok(DeviceType::Ucnet)
        } else {
            Err(s.to_owned())
        }
    }
}

/// How a configured device is attached.
#[derive(Debug, Clone, Copy, PartialEq, Eq, Structural)]
pub enum ConnectionType {
    Usb,
    Network,
    Virtual,
}

impl ConnectionType {
    /// The stored spelling of the connection type.
    pub fn as_str(&self) -> (r: &'static str)
        ensures
            match *self {
                ConnectionType::Usb => r@ == "usb"@,
                ConnectionType::Network => r@ == "network"@,
                ConnectionType::Virtual => r@ == "virtual"@,
            },
    {
        match self {
            ConnectionType::Usb => "usb",
            ConnectionType::Network => "network",
            ConnectionType::Virtual => "virtual",
        }
    }
}

impl core::str::FromStr for ConnectionType {
    type Err = String;

    /// Parses a connection type's spelling, ignoring ASCII case.
    fn from_str(s: &str) -> Result<Self, String> {
        if eq_ignore_ascii_case(s, "usb") {
            Ok(ConnectionType::Usb)
        } else if eq_ignore_ascii_case(s, "network") {
            Ok(ConnectionType::Network)
        } else if eq_ignore_ascii_case(s, "virtual") {
            Ok(ConnectionType::Virtual)
        } else {
            Err(s.to_owned())
        }
    }
}

/// A configured device of a project.
#[derive(Debug)]
pub struct Device {
    pub id: i64,
    pub project_id: i64,
    pub device_type: DeviceType,
    pub device_name: String,
    pub device_id: String,
    pub connection_type: Option<ConnectionType>,
    pub config_json: Option<String>,
    pub created_at: String,
}

/// A request to create a device configuration.
#[derive(Debug)]
pub struct CreateDeviceRequest {
    pub project_id: i64,
    pub device_type: DeviceType,
    pub device_name: String,
    pub device_id: String,
    pub connection_type: Option<ConnectionType>,
    pub config_json: Option<String>,
}

/// The taper curve spellings a stored mapping may carry.
#[derive(Debug, Clone, Copy, PartialEq, Eq, Structural)]
pub enum TaperCurve {
    Linear,
    Logarithmic,
    Exponential,
    SCurve,
}

impl TaperCurve {
    /// The stored spelling of the curve.
    pub fn as_str(&self) -> (r: &'static str)
        ensures
            match *self {
                TaperCurve::Linear => r@ == "linear"@,
                TaperCurve::Logarithmic => r@ == "logarithmic"@,
                TaperCurve::Exponential => r@ == "exponential"@,
                TaperCurve::SCurve => r@ == "s-curve"@,
            },
    {
        match self {
            TaperCurve::Linear => "linear",
            TaperCurve::Logarithmic => "logarithmic",
            TaperCurve::Exponential => "exponential",
            TaperCurve::SCurve => "s-curve",
        }
    }
}

impl core::str::FromStr for TaperCurve {
    type Err = String;

    /// Parses a curve's spelling, ignoring ASCII case.
    fn from_str(s: &str) -> Result<Self, String> {
        if eq_ignore_ascii_case(s, "linear") {
            Ok(TaperCurve::Linear)
        } else if eq_ignore_ascii_case(s, "logarithmic") {
            Ok(TaperCurve::Logarithmic)
        } else if eq_ignore_ascii_case(s, "exponential") {
            Ok(TaperCurve::Exponential)
        } else if eq_ignore_ascii_case(s, "s-curve") {
            Ok(TaperCurve::SCurve)
        } else {
            Err(s.to_owned())
        }
    }
}

/// A user preference.
#[derive(Debug)]
pub struct Preference {
    pub key: String,
    pub value: String,
    pub updated_at: String,
}

} // verus!
