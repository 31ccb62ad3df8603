//! The Mackie Control Universal (MCU) protocol: parsing controller messages
//! from faders, V-Pots and buttons, and building the feedback messages that
//! drive motorised faders and LEDs.

use vstd::prelude::*;

verus! {

/// A channel-strip control of an MCU surface.
#[derive(Debug, Clone, Copy, PartialEq, Eq, Structural)]
pub enum McuControl {
    /// Channel fader, a 14-bit pitch bend per channel.
    Fader(u8),
    /// V-Pot rotation, CC 16-23.
    VPot(u8),
    /// V-Pot LED ring, CC 48-55.
    VPotLed(u8),
    /// Record-ready button, notes 0-7.
    RecordReady(u8),
    /// Solo button, notes 8-15.
    Solo(u8),
    /// Mute button, notes 16-23.
    Mute(u8),
    /// Select button, notes 24-31.
    Select(u8),
}

/// A transport control of an MCU surface.
#[derive(Debug, Clone, Copy, PartialEq, Eq, Structural)]
pub enum McuTransport {
    /// Rewind, note 91.
    Rewind,
    /// Fast forward, note 92.
    FastForward,
    /// Stop, note 93.
    Stop,
    /// Play, note 94.
    Play,
    /// Record, note 95.
    Record,
}

/// A display update for the surface's LCD.
#[derive(Debug)]
pub struct McuDisplay {
    /// Position, two rows of 56 characters.
    pub position: u8,
    /// Text to show.
    pub text: String,
}

/// A fader position, 14-bit.
#[derive(Debug, Clone, Copy, PartialEq, Eq, Structural)]
pub struct McuFaderPosition {
    /// Channel, 0-7 on a main unit.
    pub channel: u8,
    /// Position, 0-16383.
    pub position: u16,
}

/// How a V-Pot's LED ring renders its value.
#[derive(Debug, Clone, Copy, PartialEq, Eq, Structural)]
pub enum VPotLedMode {
    /// One dot.
    Single,
    /// Boost/cut from the centre.
    BoostCut,
    /// Circular wrap.
    Wrap,
    /// Spread from the centre.
    Spread,
}

/// A parsed MCU message.
#[derive(Debug)]
pub enum McuMessage {
    /// A fader moved.
    Fader(McuFaderPosition),
    /// A V-Pot turned by a relative amount.
    VPot { channel: u8, delta: i8 },
    /// A button went down or up.
    Button { note: u8, pressed: bool },
    /// A display update.
    Display(McuDisplay),
    /// A V-Pot LED ring update.
    VPotLed { channel: u8, mode: VPotLedMode, value: u8 },
}

/// The LED mode encoded in bits 4-5 of a V-Pot LED data byte.
pub open spec fn spec_vpot_mode(bits: u8) -> VPotLedMode {
    if bits == 0 {
        VPotLedMode::Single
    } else if bits == 1 {
        VPotLedMode::BoostCut
    } else if bits == 2 {
        VPotLedMode::Wrap
    } else {
        VPotLedMode::Spread
    }
}

/// Tracks an MCU surface's fader, V-Pot and button state while parsing its
/// messages.
pub struct McuProtocol {
    fader_positions: [u16; 8],
    vpot_values: [u8; 8],
    button_states: [bool; 128],
}

impl McuProtocol {
    /// The tracked fader positions.
    pub closed spec fn faders(&self) -> Seq<u16> {
        self.fader_positions@
    }

    /// The tracked button states.
    pub closed spec fn buttons(&self) -> Seq<bool> {
        self.button_states@
    }

    /// Creates a protocol handler with faders and V-Pots at centre and all
    /// buttons up.
    pub fn new() -> (r: Self)
        ensures
            forall|i: int| 0 <= i < 8 ==> r.faders()[i] == 8192u16,
            forall|i: int| 0 <= i < 128 ==> r.buttons()[i] == false,
    {
        Self {
            fader_positions: [8192;8],
            vpot_values: [64;8],
            button_states: [false;128],
        }
    }

    /// Parses one MIDI message as MCU: pitch bend is a fader move (recorded
    /// per channel), CC 16-23 a relative V-Pot turn (two's complement around
    /// bit 6), CC 48-55 a V-Pot LED update, and notes are buttons (recorded
    /// per note); anything else is not MCU.
    pub fn parse_midi(&mut self, status: u8, data1: u8, data2: u8) -> (r: Option<McuMessage>)
        requires
            data1 < 128,
        ensures
            ({
                let kind = status & 0xF0;
                let channel = status & 0x0F;
                if kind == 0xE0 && channel < 8 {
                    &&& (r matches Some(m) && m matches McuMessage::Fader(p) && p.channel
                        == channel && p.position == ((data2 as u16) << 7 | data1 as u16))
                    &&& final(self).faders() == old(self).faders().update(
                        channel as int,
                        ((data2 as u16) << 7 | data1 as u16) as u16,
                    )
                    &&& final(self).buttons() == old(self).buttons()
                } else if kind == 0xB0 && 16 <= data1 <= 23 {
                    &&& (r matches Some(m) && m matches McuMessage::VPot { channel: c, delta } && c
                        == data1 - 16 && (if data2 & 0x40 != 0 {
                        delta as int == -((data2 & 0x3F) as int)
                    } else {
                        delta as int == (data2 & 0x3F) as int
                    }))
                    &&& final(self).faders() == old(self).faders()
                    &&& final(self).buttons() == old(self).buttons()
                } else if kind == 0xB0 && 48 <= data1 <= 55 {
                    &&& (r matches Some(m) && m matches McuMessage::VPotLed {
                        channel: c,
                        mode,
                        value,
                    } && c == data1 - 48 && mode == spec_vpot_mode((data2 >> 4) & 0x03) && value
                        == data2 & 0x0F)
                    &&& final(self).faders() == old(self).faders()
                    &&& final(self).buttons() == old(self).buttons()
                } else if kind == 0x90 || kind == 0x80 {
                    &&& (r matches Some(m) && m matches McuMessage::Button { note, pressed }
                        && note == data1 && pressed == (kind == 0x90 && data2 > 0))
                    &&& final(self).buttons() == old(self).buttons().update(
                        data1 as int,
                        kind == 0x90 && data2 > 0,
                    )
                    &&& final(self).faders() == old(self).faders()
                } else {
                    r is None && final(self).faders() == old(self).faders()
                        && final(self).buttons() == old(self).buttons()
                }
            }),
    {
        let message_type = status & 0xF0;
        let channel = status & 0x0F;

        if message_type == 0xE0 && channel < 8 {
            let position: u16 = ((data2 as u16) << 7) | (data1 as u16);
            self.fader_positions[channel as usize] = position;
            proof {
                assert(channel < 8) by (bit_vector)
                    requires channel == status & 0x0F && channel < 8;
            }
            Some(McuMessage::Fader(McuFaderPosition { channel, position }))
        } else if message_type == 0xB0 && 16 <= data1 && data1 <= 23 {
            let vpot_channel = data1 - 16;
            let delta: i8 = if data2 & 0x40 != 0 {
                let magnitude = data2 & 0x3F;
                proof {
                    assert(data2 & 0x3F < 64) by (bit_vector);
                }
                -(magnitude as i8)
            } else {
                let magnitude = data2 & 0x3F;
                proof {
                    assert(data2 & 0x3F < 64) by (bit_vector);
                }
                magnitude as i8
            };
            Some(McuMessage::VPot { channel: vpot_channel, delta })
        } else if message_type == 0xB0 && 48 <= data1 && data1 <= 55 {
            let vpot_channel = data1 - 48;
            let mode_bits = (data2 >> 4) & 0x03;
            let mode = if mode_bits == 0 {
                VPotLedMode::Single
            } else if mode_bits == 1 {
                VPotLedMode::BoostCut
            } else if mode_bits == 2 {
                VPotLedMode::Wrap
            } else {
                VPotLedMode::Spread
            };
            let value = data2 & 0x0F;
            Some(McuMessage::VPotLed { channel: vpot_channel, mode, value })
        } else if message_type == 0x90 || message_type == 0x80 {
            let pressed = message_type == 0x90 && data2 > 0;
            self.button_states[data1 as usize] = pressed;
            Some(McuMessage::Button { note: data1, pressed })
        } else {
            None
        }
    }

    /// The pitch-bend bytes that move a motorised fader to a position:
    /// status, LSB, MSB.
    pub fn create_fader_update(&self, channel: u8, position: u16) -> (r: Vec<u8>)
        ensures
            r@ == seq![
                (0xE0u8 | channel) as u8,
                (position & 0x7F) as u8,
                ((position >> 7) & 0x7F) as u8,
            ],
    {
        let mut v: Vec<u8> = Vec::new();
        v.push(0xE0 | channel);
        v.push((position & 0x7F) as u8);
        v.push(((position >> 7) & 0x7F) as u8);
        proof {
            assert(v@ =~= seq![
                (0xE0u8 | channel) as u8,
                (position & 0x7F) as u8,
                ((position >> 7) & 0x7F) as u8,
            ]);
        }
        v
    }

    /// The CC bytes that set a V-Pot's LED ring: mode in bits 4-5, value in
    /// the low nibble, on controller 48 plus the channel.
    pub fn create_vpot_led_update(&self, channel: u8, mode: VPotLedMode, value: u8) -> (r: Vec<
        u8,
    >)
        requires
            channel <= 7,
        ensures
            r@.len() == 3,
            r@[0] == 0xB0u8,
            r@[1] == 48 + channel,
            r@[2] == ({
                let mode_bits: u8 = match mode {
                    VPotLedMode::Single => 0,
                    VPotLedMode::BoostCut => 1,
                    VPotLedMode::Wrap => 2,
                    VPotLedMode::Spread => 3,
                };
                ((mode_bits & 0x03) << 4 | (value & 0x0F)) as u8
            }),
    {
        let mode_bits: u8 = match mode {
            VPotLedMode::Single => 0,
            VPotLedMode::BoostCut => 1,
            VPotLedMode::Wrap => 2,
            VPotLedMode::Spread => 3,
        };
        let data = ((mode_bits & 0x03) << 4) | (value & 0x0F);
        let mut v: Vec<u8> = Vec::new();
        v.push(0xB0);
        v.push(48 + channel);
        v.push(data);
        v
    }

    /// The note bytes that switch a button's LED on or off.
    pub fn create_button_led_update(&self, note: u8, on: bool) -> (r: Vec<u8>)
        ensures
            r@ == seq![0x90u8, note, (if on { 0x7Fu8 } else { 0x00u8 })],
    {
        let mut v: Vec<u8> = Vec::new();
        v.push(0x90);
        v.push(note);
        v.push(if on {
            0x7F
        } else {
            0x00
        });
        proof {
            assert(v@ =~= seq![0x90u8, note, (if on { 0x7Fu8 } else { 0x00u8 })]);
        }
        v
    }

    /// The channel-strip control a button note stands for, if any.
    pub fn button_to_control(note: u8) -> (r: Option<McuControl>)
        ensures
            r == (if note <= 7 {
                Some(McuControl::RecordReady(note))
            } else if note <= 15 {
                Some(McuControl::Solo((note - 8) as u8))
            } else if note <= 23 {
                Some(McuControl::Mute((note - 16) as u8))
            } else if note <= 31 {
                Some(McuControl::Select((note - 24) as u8))
            } else {
                None::<McuControl>
            }),
    {
        if note <= 7 {
            Some(McuControl::RecordReady(note))
        } else if note <= 15 {
            Some(McuControl::Solo(note - 8))
        } else if note <= 23 {
            Some(McuControl::Mute(note - 16))
        } else if note <= 31 {
            Some(McuControl::Select(note - 24))
        } else {
            None
        }
    }

    /// A 14-bit fader position in micro-units of the [0, 1] range.
    pub fn fader_to_normalized(position: u16) -> (r: i64)
        ensures
            r as int == crate::taper::spec_midi_14bit_to_normalized(
                ((position as int) / 128) as u8,
                ((position as int) % 128) as u8,
            ) || position >= 16384,
            0 <= r <= 1_000_000,
    {
        let p: i64 = if position > 16383 {
            16383
        } else {
            position as i64
        };
        proof {
            assert(0 <= p * 1_000_000 <= 16_383_000_000i64) by (nonlinear_arith)
                requires 0 <= p <= 16_383;
            if position < 16384 {
                let m = (position as int) / 128;
                let l = (position as int) % 128;
                vstd::arithmetic::div_mod::lemma_fundamental_div_mod(position as int, 128);
                vstd::arithmetic::div_mod::lemma_mod_division_less_than_divisor(
                    position as int,
                    128,
                );
                assert(m * 128 + l == position as int);
                assert(m <= 127) by (nonlinear_arith)
                    requires m == (position as int) / 128 && position < 16384 && m * 128 + l
                        == position as int && 0 <= l < 128;
            }
        }
        p * 1_000_000 / 16_383
    }

    /// Micro-units of the [0, 1] range as a 14-bit fader position.
    pub fn normalized_to_fader(value: i64) -> (r: u16)
        ensures
            r as int == crate::taper::spec_clamp_unit(value as int) * 16_383 / 1_000_000,
            r <= 16383,
    {
        let xc = crate::taper::clamp_unit(value);
        proof {
            assert(0 <= xc * 16_383 <= 16_383_000_000i64) by (nonlinear_arith)
                requires 0 <= xc <= 1_000_000;
        }
        (xc * 16_383 / 1_000_000) as u16
    }

    /// A relative V-Pot turn as signed micro-units, one detent being a 64th
    /// of the range.
    pub fn vpot_delta_to_normalized(delta: i8) -> (r: i64)
        ensures
            r as int == (delta as int) * 1_000_000 / 64,
    {
        (delta as i64) * 1_000_000 / 64
    }
}

impl Default for McuProtocol {
    /// A protocol handler with faders and V-Pots at centre.
    fn default() -> (r: Self)
        ensures
            forall|i: int| 0 <= i < 8 ==> r.faders()[i] == 8192u16,
    {
        Self::new()
    }
}

/// A stored MCU-to-UCNet assignment.
#[derive(Debug)]
pub struct McuToUcNetMapping {
    /// The MCU control, spelled out for storage.
    pub mcu_control: String,
    /// The UCNet parameter path.
    pub ucnet_parameter: String,
    /// Channel number for multi-channel controls.
    pub channel: u8,
}

} // verus!
