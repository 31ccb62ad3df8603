//! The MIDI message model: structured messages and their raw-byte codec.

use vstd::prelude::*;

verus! {

/// A MIDI device as seen by enumeration.
#[derive(Debug, PartialEq)]
pub struct MidiDevice {
    /// Session-stable identifier, `{type}:{port}:{name}`.
    pub id: String,
    /// Human-readable device name.
    pub name: String,
    /// Manufacturer name, when one could be recognised.
    pub manufacturer: Option<String>,
    /// Whether the device is an input or an output.
    pub device_type: MidiDeviceType,
    /// Port index in the system's port list.
    pub port_number: usize,
    /// Connection status.
    pub status: MidiConnectionStatus,
}

impl Clone for MidiDevice {
    fn clone(&self) -> (r: Self)
        ensures
            r == *self,
    {
        MidiDevice {
            id: self.id.clone(),
            name: self.name.clone(),
            manufacturer: match &self.manufacturer {
                Some(m) => Some(m.clone()),
                None => None,
            },
            device_type: self.device_type,
            port_number: self.port_number,
            status: self.status,
        }
    }
}

/// Whether a MIDI device receives or emits messages.
#[derive(Debug, Clone, Copy, PartialEq, Eq, Structural)]
pub enum MidiDeviceType {
    /// A source of MIDI messages.
    Input,
    /// A sink for MIDI messages.
    Output,
}

/// Connection status of a MIDI device.
#[derive(Debug, Clone, Copy, PartialEq, Eq, Structural)]
pub enum MidiConnectionStatus {
    /// Present but not connected.
    Available,
    /// Currently connected.
    Connected,
    /// Gone or unusable.
    Disconnected,
}

/// The MIDI messages relevant to control surfaces.
#[derive(Debug, Clone, Copy, PartialEq, Eq, Structural)]
pub enum MidiMessageType {
    /// Control Change: a controller number and a 7-bit value.
    ControlChange { channel: u8, controller: u8, value: u8 },
    /// Note On.
    NoteOn { channel: u8, note: u8, velocity: u8 },
    /// Note Off.
    NoteOff { channel: u8, note: u8, velocity: u8 },
    /// Pitch Bend with a 14-bit value, 0x2000 at rest.
    PitchBend { channel: u8, value: u16 },
    /// Program Change.
    ProgramChange { channel: u8, program: u8 },
}

/// What parsing a raw MIDI byte sequence yields: the status byte's high
/// nibble selects the message type, its low nibble the channel; data bytes
/// follow. Bytes that do not form one of the five supported messages parse
/// to nothing.
pub open spec fn spec_message_from_bytes(bytes: Seq<u8>) -> Option<MidiMessageType> {
    if bytes.len() == 0 {
        None
    } else {
        let status = bytes[0];
        let channel = (status & 0x0F) as u8;
        if status & 0xF0 == 0x80 {
            if bytes.len() >= 3 {
                Some(MidiMessageType::NoteOff { channel, note: bytes[1], velocity: bytes[2] })
            } else {
                None
            }
        } else if status & 0xF0 == 0x90 {
            if bytes.len() >= 3 {
                Some(MidiMessageType::NoteOn { channel, note: bytes[1], velocity: bytes[2] })
            } else {
                None
            }
        } else if status & 0xF0 == 0xB0 {
            if bytes.len() >= 3 {
                Some(
                    MidiMessageType::ControlChange {
                        channel,
                        controller: bytes[1],
                        value: bytes[2],
                    },
                )
            } else {
                None
            }
        } else if status & 0xF0 == 0xC0 {
            if bytes.len() >= 2 {
                Some(MidiMessageType::ProgramChange { channel, program: bytes[1] })
            } else {
                None
            }
        } else if status & 0xF0 == 0xE0 {
            if bytes.len() >= 3 {
                Some(
                    MidiMessageType::PitchBend {
                        channel,
                        value: ((bytes[2] as u16) << 7 | bytes[1] as u16) as u16,
                    },
                )
            } else {
                None
            }
        } else {
            None
        }
    }
}

/// The raw bytes of a message: status byte with the channel in the low
/// nibble, then the data bytes (pitch bend little-endian, 7 bits per byte).
pub open spec fn spec_message_to_bytes(m: MidiMessageType) -> Seq<u8> {
    match m {
        MidiMessageType::NoteOff { channel, note, velocity } => seq![
            (0x80u8 | channel) as u8,
            note,
            velocity,
        ],
        MidiMessageType::NoteOn { channel, note, velocity } => seq![
            (0x90u8 | channel) as u8,
            note,
            velocity,
        ],
        MidiMessageType::ControlChange { channel, controller, value } => seq![
            (0xB0u8 | channel) as u8,
            controller,
            value,
        ],
        MidiMessageType::ProgramChange { channel, program } => seq![
            (0xC0u8 | channel) as u8,
            program,
        ],
        MidiMessageType::PitchBend { channel, value } => seq![
            (0xE0u8 | channel) as u8,
            (value & 0x7F) as u8,
            ((value >> 7) & 0x7F) as u8,
        ],
    }
}

impl MidiMessageType {
    /// Parses a raw MIDI byte sequence into a structured message; returns
    /// `None` exactly for the byte sequences that form none of the five
    /// supported messages.
    pub fn from_bytes(bytes: &[u8]) -> (r: Option<Self>)
        ensures
            r == spec_message_from_bytes(bytes@),
    {
        if bytes.len() == 0 {
            return None;
        }
        let status = bytes[0];
        let message_type = status & 0xF0;
        let channel = status & 0x0F;

        match message_type {
            0x80 => {
                if bytes.len() >= 3 {
                    Some(MidiMessageType::NoteOff { channel, note: bytes[1], velocity: bytes[2] })
                } else {
                    None
                }
            },
            0x90 => {
                if bytes.len() >= 3 {
                    Some(MidiMessageType::NoteOn { channel, note: bytes[1], velocity: bytes[2] })
                } else {
                    None
                }
            },
            0xB0 => {
                if bytes.len() >= 3 {
                    Some(
                        MidiMessageType::ControlChange {
                            channel,
                            controller: bytes[1],
                            value: bytes[2],
                        },
                    )
                } else {
                    None
                }
            },
            0xC0 => {
                if bytes.len() >= 2 {
                    Some(MidiMessageType::ProgramChange { channel, program: bytes[1] })
                } else {
                    None
                }
            },
            0xE0 => {
                if bytes.len() >= 3 {
                    let value = ((bytes[2] as u16) << 7) | (bytes[1] as u16);
                    Some(MidiMessageType::PitchBend { channel, value })
                } else {
                    None
                }
            },
            _ => None,
        }
    }

    /// Serialises a message to raw MIDI bytes.
    pub fn to_bytes(&self) -> (r: Vec<u8>)
        ensures
            r@ == spec_message_to_bytes(*self),
    {
        let r = match *self {
            MidiMessageType::NoteOff { channel, note, velocity } => {
                let mut v: Vec<u8> = Vec::new();
                v.push(0x80 | channel);
                v.push(note);
                v.push(velocity);
                v
            },
            MidiMessageType::NoteOn { channel, note, velocity } => {
                let mut v: Vec<u8> = Vec::new();
                v.push(0x90 | channel);
                v.push(note);
                v.push(velocity);
                v
            },
            MidiMessageType::ControlChange { channel, controller, value } => {
                let mut v: Vec<u8> = Vec::new();
                v.push(0xB0 | channel);
                v.push(controller);
                v.push(value);
                v
            },
            MidiMessageType::ProgramChange { channel, program } => {
                let mut v: Vec<u8> = Vec::new();
                v.push(0xC0 | channel);
                v.push(program);
                v
            },
            MidiMessageType::PitchBend { channel, value } => {
                let mut v: Vec<u8> = Vec::new();
                v.push(0xE0 | channel);
                v.push((value & 0x7F) as u8);
                v.push(((value >> 7) & 0x7F) as u8);
                v
            },
        };
        proof {
            assert(r@ =~= spec_message_to_bytes(*self));
        }
        r
    }

    /// Whether every field of the message is within its MIDI range: channel
    /// in the low nibble, data values 7-bit, pitch bend 14-bit.
    pub open spec fn in_range(&self) -> bool {
        match *self {
            MidiMessageType::NoteOff { channel, note, velocity } => channel < 16 && note < 128
                && velocity < 128,
            MidiMessageType::NoteOn { channel, note, velocity } => channel < 16 && note < 128
                && velocity < 128,
            MidiMessageType::ControlChange { channel, controller, value } => channel < 16
                && controller < 128 && value < 128,
            MidiMessageType::ProgramChange { channel, program } => channel < 16 && program < 128,
            MidiMessageType::PitchBend { channel, value } => channel < 16 && value < 16384,
        }
    }
}

/// Serialising an in-range message and parsing the bytes back returns the
/// message unchanged.
pub proof fn lemma_message_bytes_round_trip(m: MidiMessageType)
    requires
        m.in_range(),
    ensures
        spec_message_from_bytes(spec_message_to_bytes(m)) == Some(m),
{
    let b = spec_message_to_bytes(m);
    match m {
        MidiMessageType::NoteOff { channel, note, velocity } => {
            assert((0x80u8 | channel) & 0xF0 == 0x80 && (0x80u8 | channel) & 0x0F == channel)
                by (bit_vector)
                requires channel < 16;
            assert(b.len() == 3 && b[0] == (0x80u8 | channel) && b[1] == note && b[2] == velocity);
        },
        MidiMessageType::NoteOn { channel, note, velocity } => {
            assert((0x90u8 | channel) & 0xF0 == 0x90 && (0x90u8 | channel) & 0x0F == channel)
                by (bit_vector)
                requires channel < 16;
            assert(b.len() == 3 && b[0] == (0x90u8 | channel) && b[1] == note && b[2] == velocity);
        },
        MidiMessageType::ControlChange { channel, controller, value } => {
            assert((0xB0u8 | channel) & 0xF0 == 0xB0 && (0xB0u8 | channel) & 0x0F == channel)
                by (bit_vector)
                requires channel < 16;
            assert(b.len() == 3 && b[0] == (0xB0u8 | channel) && b[1] == controller && b[2]
                == value);
        },
        MidiMessageType::ProgramChange { channel, program } => {
            assert((0xC0u8 | channel) & 0xF0 == 0xC0 && (0xC0u8 | channel) & 0x0F == channel)
                by (bit_vector)
                requires channel < 16;
            assert(b.len() == 2 && b[0] == (0xC0u8 | channel) && b[1] == program);
        },
        MidiMessageType::PitchBend { channel, value } => {
            assert((0xE0u8 | channel) & 0xF0 == 0xE0 && (0xE0u8 | channel) & 0x0F == channel)
                by (bit_vector)
                requires channel < 16;
            let lo = (value & 0x7F) as u8;
            let hi = ((value >> 7) & 0x7F) as u8;
            assert(b.len() == 3 && b[0] == (0xE0u8 | channel) && b[1] == lo && b[2] == hi);
            assert((hi as u16) << 7 | (lo as u16) == value) by (bit_vector)
                requires
                    value < 16384 && lo == (value & 0x7F) as u8 && hi == ((value >> 7)
                        & 0x7F) as u8,
            ;
        },
    }
}

} // verus!
