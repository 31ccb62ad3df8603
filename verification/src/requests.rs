//! The outer layer's request for adding a parameter mapping, and its
//! validation into a mapping.

use vstd::prelude::*;
use crate::db_types::spec_eq_ignore_case;
use crate::strutil::{eq_ignore_ascii_case, str_eq};
use crate::translation::{ParameterMapping, TaperCurve, UcNetParameterType};

verus! {

/// A request to add a parameter mapping, with the parameter type and curve
/// still spelled out.
#[derive(Debug)]
pub struct AddMappingRequest {
    /// MIDI channel (0-15).
    pub midi_channel: u8,
    /// MIDI controller number, for 7-bit CC mappings.
    pub midi_controller: Option<u8>,
    /// MIDI note number, for mute mappings.
    pub midi_note: Option<u8>,
    /// Target UCNet device id.
    pub ucnet_device_id: String,
    /// Target UCNet channel (1-based).
    pub ucnet_channel: u32,
    /// Parameter type spelling: volume, pan or mute.
    pub parameter_type: String,
    /// Taper curve spelling: linear, logarithmic or audio; volume only.
    pub taper_curve: Option<String>,
    /// Whether to map a 14-bit MSB/LSB pair.
    pub use_14bit: Option<bool>,
    /// MSB controller number for 14-bit mode.
    pub midi_controller_msb: Option<u8>,
    /// LSB controller number for 14-bit mode.
    pub midi_controller_lsb: Option<u8>,
}

/// The parameter type a request spells, ignoring ASCII case.
pub open spec fn spec_requested_type(s: Seq<char>) -> Option<UcNetParameterType> {
    if spec_eq_ignore_case(s, "volume"@) {
        Some(UcNetParameterType::Volume)
    } else if spec_eq_ignore_case(s, "pan"@) {
        Some(UcNetParameterType::Pan)
    } else if spec_eq_ignore_case(s, "mute"@) {
        Some(UcNetParameterType::Mute)
    } else {
        None
    }
}

/// The taper curve a volume request spells: linear when absent, and exactly
/// linear, logarithmic or audio otherwise.
pub open spec fn spec_requested_curve(c: Option<String>) -> Option<TaperCurve> {
    match c {
        None => Some(TaperCurve::Linear),
        Some(s) => {
            if s@ == "linear"@ {
                Some(TaperCurve::Linear)
            } else if s@ == "logarithmic"@ {
                Some(TaperCurve::Logarithmic)
            } else if s@ == "audio"@ {
                Some(TaperCurve::AudioTaper)
            } else {
                None
            }
        },
    }
}

impl AddMappingRequest {
    /// Validates the request into a mapping. Fails when the parameter type
    /// spelling is unknown, a volume request spells an unknown curve, a mute
    /// request carries no note, or a continuous request misses its
    /// controller (or its MSB/LSB pair in 14-bit mode).
    pub fn to_mapping(self) -> (r: Result<ParameterMapping, String>)
        ensures
            ({
                let pt = spec_requested_type(self.parameter_type@);
                let curve = spec_requested_curve(self.taper_curve);
                let wants_14bit = self.use_14bit == Some(true);
                match r {
                    Ok(m) => {
                        &&& pt is Some
                        &&& m.parameter_type == pt.unwrap()
                        &&& m.midi_channel == self.midi_channel
                        &&& m.ucnet_device_id@ == self.ucnet_device_id@
                        &&& m.ucnet_channel == self.ucnet_channel
                        &&& m.well_formed()
                        &&& match pt.unwrap() {
                            UcNetParameterType::Mute => m.midi_note == self.midi_note
                                && self.midi_note is Some,
                            UcNetParameterType::Volume => {
                                &&& curve is Some
                                &&& m.taper_curve == curve.unwrap()
                                &&& m.use_14bit == wants_14bit
                                &&& if wants_14bit {
                                    m.midi_controller_msb == self.midi_controller_msb
                                        && m.midi_controller_lsb == self.midi_controller_lsb
                                } else {
                                    m.midi_controller == self.midi_controller
                                }
                            },
                            UcNetParameterType::Pan => {
                                &&& m.taper_curve == TaperCurve::Linear
                                &&& m.use_14bit == wants_14bit
                                &&& if wants_14bit {
                                    m.midi_controller_msb == self.midi_controller_msb
                                        && m.midi_controller_lsb == self.midi_controller_lsb
                                } else {
                                    m.midi_controller == self.midi_controller
                                }
                            },
                        }
                    },
                    Err(_) => {
                        ||| pt is None
                        ||| (pt == Some(UcNetParameterType::Volume) && curve is None)
                        ||| (pt == Some(UcNetParameterType::Mute) && self.midi_note is None)
                        ||| (pt != Some(UcNetParameterType::Mute) && wants_14bit && (
                        self.midi_controller_msb is None || self.midi_controller_lsb is None))
                        ||| (pt != Some(UcNetParameterType::Mute) && !wants_14bit
                            && self.midi_controller is None)
                    },
                }
            }),
    {
        let parameter_type = if eq_ignore_ascii_case(self.parameter_type.as_str(), "volume") {
            UcNetParameterType::Volume
        } else if eq_ignore_ascii_case(self.parameter_type.as_str(), "pan") {
            UcNetParameterType::Pan
        } else if eq_ignore_ascii_case(self.parameter_type.as_str(), "mute") {
            UcNetParameterType::Mute
        } else {
            return Err(self.parameter_type);
        };
        let is_volume = match parameter_type {
            UcNetParameterType::Volume => true,
            _ => false,
        };
        let taper_curve = if is_volume {
            match &self.taper_curve {
                None => TaperCurve::Linear,
                Some(c) => {
                    if str_eq(c.as_str(), "linear") {
                        TaperCurve::Linear
                    } else if str_eq(c.as_str(), "logarithmic") {
                        TaperCurve::Logarithmic
                    } else if str_eq(c.as_str(), "audio") {
                        TaperCurve::AudioTaper
                    } else {
                        return Err(c.clone());
                    }
                },
            }
        } else {
            TaperCurve::Linear
        };
        let is_mute = match parameter_type {
            UcNetParameterType::Mute => true,
            _ => false,
        };
        if is_mute {
            let midi_note = match self.midi_note {
                Some(n) => n,
                None => {
                    return Err(String::from_str("A mute mapping needs a MIDI note"));
                },
            };
            return Ok(
                ParameterMapping::new_mute(
                    self.midi_channel,
                    midi_note,
                    self.ucnet_device_id,
                    self.ucnet_channel,
                ),
            );
        }
        let wants_14bit = match self.use_14bit {
            Some(b) => b,
            None => false,
        };
        if wants_14bit {
            let msb = match self.midi_controller_msb {
                Some(m) => m,
                None => {
                    return Err(String::from_str("A 14-bit mapping needs an MSB controller"));
                },
            };
            let lsb = match self.midi_controller_lsb {
                Some(l) => l,
                None => {
                    return Err(String::from_str("A 14-bit mapping needs an LSB controller"));
                },
            };
            if is_volume {
                Ok(
                    ParameterMapping::new_volume_14bit(
                        self.midi_channel,
                        msb,
                        lsb,
                        self.ucnet_device_id,
                        self.ucnet_channel,
                        taper_curve,
                    ),
                )
            } else {
                Ok(
                    ParameterMapping::new_pan_14bit(
                        self.midi_channel,
                        msb,
                        lsb,
                        self.ucnet_device_id,
                        self.ucnet_channel,
                    ),
                )
            }
        } else {
            let controller = match self.midi_controller {
                Some(c) => c,
                None => {
                    return Err(String::from_str("A continuous mapping needs a MIDI controller"));
                },
            };
            if is_volume {
                Ok(
                    ParameterMapping::new_volume(
                        self.midi_channel,
                        controller,
                        self.ucnet_device_id,
                        self.ucnet_channel,
                        taper_curve,
                    ),
                )
            } else {
                Ok(
                    ParameterMapping::new_pan(
                        self.midi_channel,
                        controller,
                        self.ucnet_device_id,
                        self.ucnet_channel,
                    ),
                )
            }
        }
    }
}

} // verus!
