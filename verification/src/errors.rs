//! Error types for MIDI and UCNet operations.

use vstd::prelude::*;

verus! {

/// Errors of MIDI operations.
#[derive(Debug)]
pub enum MidiError {
    /// The native MIDI subsystem could not be initialised.
    InitializationError(String),
    /// Device enumeration failed.
    EnumerationError(String),
    /// Connecting to a device failed.
    ConnectionError { device: String, reason: String },
    /// Disconnecting from a device failed.
    DisconnectionError { device: String, reason: String },
    /// Sending a message failed.
    SendError(String),
    /// Receiving a message failed.
    ReceiveError(String),
    /// A malformed MIDI message.
    InvalidMessage(String),
    /// No device under the given id.
    DeviceNotFound(String),
    /// The port is already in use.
    PortInUse(usize),
    /// Any other MIDI error.
    Other(String),
}

/// Result type of MIDI operations.
pub type MidiResult<T> = Result<T, MidiError>;

/// Errors of UCNet operations.
#[derive(Debug)]
pub enum UcNetError {
    /// A network transport error.
    Network(String),
    /// A USB transport error.
    Usb(String),
    /// No device under the given id.
    DeviceNotFound(String),
    /// A connection attempt or exchange timed out.
    Timeout,
    /// A malformed or unexpected device response.
    InvalidResponse(String),
    /// The device is already connected.
    AlreadyConnected(String),
    /// The connection was lost.
    ConnectionLost(String),
    /// A protocol-level error such as a failed decompression.
    Protocol(String),
    /// A serialisation error.
    Serialization(String),
}

} // verus!
