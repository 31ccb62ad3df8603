//! Types describing mappings between MIDI controls and UCNet parameters.

use vstd::prelude::*;

verus! {

/// Kinds of mixer parameters a mapping can drive.
#[derive(Debug, Clone, Copy, PartialEq, Eq, Hash, Structural)]
pub enum UcNetParameterType {
    /// Channel volume/fader, continuous in [0, 1].
    Volume,
    /// Channel mute, a boolean.
    Mute,
    /// Channel pan, continuous in [-1, 1].
    Pan,
}

/// A parameter value. `Float(x)` carries a continuous value in fixed point,
/// x micro-units (1_000_000 micro-units stand for 1.0); `Bool` carries a
/// toggle such as mute.
#[derive(Debug, Clone, Copy, PartialEq, Eq, Structural)]
pub enum UcNetParameterValue {
    /// Continuous value in micro-units (volume 0..=1_000_000,
    /// pan -1_000_000..=1_000_000).
    Float(i64),
    /// Toggle value.
    Bool(bool),
}

/// Response curve between a control position and the parameter value.
#[derive(Debug, Clone, Copy, PartialEq, Eq, Structural)]
pub enum TaperCurve {
    /// Identity response.
    Linear,
    /// Response shaped like log2(x + 1).
    Logarithmic,
    /// Response shaped like x^2.5, approximating perceived loudness.
    AudioTaper,
}

/// A mapping between one MIDI control and one UCNet parameter.
#[derive(Debug, PartialEq)]
pub struct ParameterMapping {
    /// MIDI channel (0-15).
    pub midi_channel: u8,
    /// MIDI controller number, for 7-bit CC mappings.
    pub midi_controller: Option<u8>,
    /// MIDI note number, for note-driven (mute) mappings.
    pub midi_note: Option<u8>,
    /// Target UCNet device id.
    pub ucnet_device_id: String,
    /// Target UCNet channel number (1-based).
    pub ucnet_channel: u32,
    /// Target parameter type.
    pub parameter_type: UcNetParameterType,
    /// Taper curve for continuous parameters; ignored for mute.
    pub taper_curve: TaperCurve,
    /// Whether the mapping uses 14-bit MIDI CC (an MSB/LSB pair).
    pub use_14bit: bool,
    /// MSB controller number for 14-bit mode.
    pub midi_controller_msb: Option<u8>,
    /// LSB controller number for 14-bit mode.
    pub midi_controller_lsb: Option<u8>,
}

impl Clone for ParameterMapping {
    fn clone(&self) -> (r: Self)
        ensures
            r == *self,
    {
        ParameterMapping {
            midi_channel: self.midi_channel,
            midi_controller: self.midi_controller,
            midi_note: self.midi_note,
            ucnet_device_id: self.ucnet_device_id.clone(),
            ucnet_channel: self.ucnet_channel,
            parameter_type: self.parameter_type,
            taper_curve: self.taper_curve,
            use_14bit: self.use_14bit,
            midi_controller_msb: self.midi_controller_msb,
            midi_controller_lsb: self.midi_controller_lsb,
        }
    }
}

impl ParameterMapping {
    /// The structural invariant of a mapping: mute mappings carry a note and
    /// no controller; continuous mappings carry exactly one of a 7-bit
    /// controller or a 14-bit MSB/LSB pair, and no note.
    pub open spec fn well_formed(&self) -> bool {
        match self.parameter_type {
            UcNetParameterType::Mute => {
                &&& self.midi_note is Some
                &&& self.midi_controller is None
                &&& self.midi_controller_msb is None
                &&& self.midi_controller_lsb is None
                &&& !self.use_14bit
            },
            _ => {
                &&& self.midi_note is None
                &&& if self.use_14bit {
                    self.midi_controller is None && self.midi_controller_msb is Some
                        && self.midi_controller_lsb is Some
                } else {
                    self.midi_controller is Some && self.midi_controller_msb is None
                        && self.midi_controller_lsb is None
                }
            },
        }
    }

    /// Creates a volume mapping driven by a 7-bit MIDI CC.
    pub fn new_volume(
        midi_channel: u8,
        midi_controller: u8,
        ucnet_device_id: String,
        ucnet_channel: u32,
        taper_curve: TaperCurve,
    ) -> (r: Self)
        ensures
            r.well_formed(),
            r.midi_channel == midi_channel,
            r.midi_controller == Some(midi_controller),
            r.midi_note is None,
            r.ucnet_device_id == ucnet_device_id,
            r.ucnet_channel == ucnet_channel,
            r.parameter_type == UcNetParameterType::Volume,
            r.taper_curve == taper_curve,
            !r.use_14bit,
    {
        Self {
            midi_channel,
            midi_controller: Some(midi_controller),
            midi_note: None,
            ucnet_device_id,
            ucnet_channel,
            parameter_type: UcNetParameterType::Volume,
            taper_curve,
            use_14bit: false,
            midi_controller_msb: None,
            midi_controller_lsb: None,
        }
    }

    /// Creates a volume mapping driven by a 14-bit MIDI CC MSB/LSB pair.
    pub fn new_volume_14bit(
        midi_channel: u8,
        midi_controller_msb: u8,
        midi_controller_lsb: u8,
        ucnet_device_id: String,
        ucnet_channel: u32,
        taper_curve: TaperCurve,
    ) -> (r: Self)
        ensures
            r.well_formed(),
            r.midi_channel == midi_channel,
            r.midi_controller_msb == Some(midi_controller_msb),
            r.midi_controller_lsb == Some(midi_controller_lsb),
            r.midi_controller is None,
            r.midi_note is None,
            r.ucnet_device_id == ucnet_device_id,
            r.ucnet_channel == ucnet_channel,
            r.parameter_type == UcNetParameterType::Volume,
            r.taper_curve == taper_curve,
            r.use_14bit,
    {
        Self {
            midi_channel,
            midi_controller: None,
            midi_note: None,
            ucnet_device_id,
            ucnet_channel,
            parameter_type: UcNetParameterType::Volume,
            taper_curve,
            use_14bit: true,
            midi_controller_msb: Some(midi_controller_msb),
            midi_controller_lsb: Some(midi_controller_lsb),
        }
    }

    /// Creates a mute mapping driven by a MIDI note.
    pub fn new_mute(
        midi_channel: u8,
        midi_note: u8,
        ucnet_device_id: String,
        ucnet_channel: u32,
    ) -> (r: Self)
        ensures
            r.well_formed(),
            r.midi_channel == midi_channel,
            r.midi_note == Some(midi_note),
            r.midi_controller is None,
            r.ucnet_device_id == ucnet_device_id,
            r.ucnet_channel == ucnet_channel,
            r.parameter_type == UcNetParameterType::Mute,
            r.taper_curve == TaperCurve::Linear,
            !r.use_14bit,
    {
        Self {
            midi_channel,
            midi_controller: None,
            midi_note: Some(midi_note),
            ucnet_device_id,
            ucnet_channel,
            parameter_type: UcNetParameterType::Mute,
            // The curve is unused for boolean parameters.
            taper_curve: TaperCurve::Linear,
            use_14bit: false,
            midi_controller_msb: None,
            midi_controller_lsb: None,
        }
    }

    /// Creates a pan mapping driven by a 7-bit MIDI CC.
    pub fn new_pan(
        midi_channel: u8,
        midi_controller: u8,
        ucnet_device_id: String,
        ucnet_channel: u32,
    ) -> (r: Self)
        ensures
            r.well_formed(),
            r.midi_channel == midi_channel,
            r.midi_controller == Some(midi_controller),
            r.midi_note is None,
            r.ucnet_device_id == ucnet_device_id,
            r.ucnet_channel == ucnet_channel,
            r.parameter_type == UcNetParameterType::Pan,
            r.taper_curve == TaperCurve::Linear,
            !r.use_14bit,
    {
        Self {
            midi_channel,
            midi_controller: Some(midi_controller),
            midi_note: None,
            ucnet_device_id,
            ucnet_channel,
            parameter_type: UcNetParameterType::Pan,
            taper_curve: TaperCurve::Linear,
            use_14bit: false,
            midi_controller_msb: None,
            midi_controller_lsb: None,
        }
    }

    /// Creates a pan mapping driven by a 14-bit MIDI CC MSB/LSB pair.
    pub fn new_pan_14bit(
        midi_channel: u8,
        midi_controller_msb: u8,
        midi_controller_lsb: u8,
        ucnet_device_id: String,
        ucnet_channel: u32,
    ) -> (r: Self)
        ensures
            r.well_formed(),
            r.midi_channel == midi_channel,
            r.midi_controller_msb == Some(midi_controller_msb),
            r.midi_controller_lsb == Some(midi_controller_lsb),
            r.midi_controller is None,
            r.midi_note is None,
            r.ucnet_device_id == ucnet_device_id,
            r.ucnet_channel == ucnet_channel,
            r.parameter_type == UcNetParameterType::Pan,
            r.taper_curve == TaperCurve::Linear,
            r.use_14bit,
    {
        Self {
            midi_channel,
            midi_controller: None,
            midi_note: None,
            ucnet_device_id,
            ucnet_channel,
            parameter_type: UcNetParameterType::Pan,
            taper_curve: TaperCurve::Linear,
            use_14bit: true,
            midi_controller_msb: Some(midi_controller_msb),
            midi_controller_lsb: Some(midi_controller_lsb),
        }
    }
}

} // verus!
