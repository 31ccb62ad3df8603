//! MIDI Learn: captures the next learnable MIDI event and materialises a
//! parameter mapping from it.
//!
//! At most one learn session is open at a time; a session times out ten
//! seconds after it started. Program Change messages and Note On messages
//! with velocity zero are not learnable and leave the session open.

use vstd::prelude::*;
use crate::midi::MidiMessageType;
use crate::translation::{ParameterMapping, TaperCurve, UcNetParameterType};

verus! {

/// How long a learn session stays open, in milliseconds.
pub const LEARN_TIMEOUT_MS: u64 = 10_000;

/// The learn state machine's state.
#[derive(Debug, PartialEq)]
pub enum LearnState {
    /// Not learning.
    Idle,
    /// Waiting for a learnable MIDI event for one parameter.
    Listening {
        /// Target UCNet device id.
        device_id: String,
        /// Target UCNet channel.
        channel: u32,
        /// Parameter type to learn.
        parameter_type: UcNetParameterType,
        /// When the session started, in milliseconds of the caller's clock.
        started_at: u64,
    },
}

impl Clone for LearnState {
    fn clone(&self) -> (r: Self)
        ensures
            r == *self,
    {
        match self {
            LearnState::Idle => LearnState::Idle,
            LearnState::Listening { device_id, channel, parameter_type, started_at } => (
                LearnState::Listening {
                    device_id: device_id.clone(),
                    channel: *channel,
                    parameter_type: *parameter_type,
                    started_at: *started_at,
                }
            ),
        }
    }
}

/// The outcome of feeding one MIDI message to the learn machine.
#[derive(Debug, PartialEq)]
pub enum LearnResult {
    /// A mapping was learned; the session is over.
    Success(ParameterMapping),
    /// The session timed out.
    Timeout,
    /// The session was cancelled.
    Cancelled,
    /// Still waiting for a learnable event.
    Waiting,
}

impl Clone for LearnResult {
    fn clone(&self) -> (r: Self)
        ensures
            r == *self,
    {
        match self {
            LearnResult::Success(m) => LearnResult::Success(m.clone()),
            LearnResult::Timeout => LearnResult::Timeout,
            LearnResult::Cancelled => LearnResult::Cancelled,
            LearnResult::Waiting => LearnResult::Waiting,
        }
    }
}

/// Whether a message can seed a mapping: Control Change, notes (with Note On
/// velocity above zero) and pitch bend can; Program Change cannot.
pub open spec fn spec_is_learnable(message: MidiMessageType) -> bool {
    match message {
        MidiMessageType::ControlChange { .. } => true,
        MidiMessageType::NoteOn { velocity, .. } => velocity > 0,
        MidiMessageType::NoteOff { .. } => true,
        MidiMessageType::PitchBend { .. } => true,
        MidiMessageType::ProgramChange { .. } => false,
    }
}

/// The default taper curve a learned continuous mapping gets: the audio
/// taper for volume, linear otherwise.
pub open spec fn spec_default_curve(parameter_type: UcNetParameterType) -> TaperCurve {
    match parameter_type {
        UcNetParameterType::Volume => TaperCurve::AudioTaper,
        _ => TaperCurve::Linear,
    }
}

/// What the mapping learned from a message looks like: a Control Change
/// learns a 7-bit controller mapping, a note learns a note mapping, and
/// pitch bend learns a mapping under the reserved controller number 128.
pub open spec fn spec_learned_mapping(
    mapping: ParameterMapping,
    message: MidiMessageType,
    device_id: Seq<char>,
    channel: u32,
    parameter_type: UcNetParameterType,
) -> bool {
    &&& mapping.ucnet_device_id@ == device_id
    &&& mapping.ucnet_channel == channel
    &&& mapping.parameter_type == parameter_type
    &&& !mapping.use_14bit
    &&& mapping.midi_controller_msb is None
    &&& mapping.midi_controller_lsb is None
    &&& match message {
        MidiMessageType::ControlChange { channel: mc, controller, .. } => {
            &&& mapping.midi_channel == mc
            &&& mapping.midi_controller == Some(controller)
            &&& mapping.midi_note is None
            &&& mapping.taper_curve == spec_default_curve(parameter_type)
        },
        MidiMessageType::NoteOn { channel: mc, note, .. } => {
            &&& mapping.midi_channel == mc
            &&& mapping.midi_controller is None
            &&& mapping.midi_note == Some(note)
            &&& mapping.taper_curve == TaperCurve::Linear
        },
        MidiMessageType::NoteOff { channel: mc, note, .. } => {
            &&& mapping.midi_channel == mc
            &&& mapping.midi_controller is None
            &&& mapping.midi_note == Some(note)
            &&& mapping.taper_curve == TaperCurve::Linear
        },
        MidiMessageType::PitchBend { channel: mc, .. } => {
            &&& mapping.midi_channel == mc
            &&& mapping.midi_controller == Some(128u8)
            &&& mapping.midi_note is None
            &&& mapping.taper_curve == spec_default_curve(parameter_type)
        },
        MidiMessageType::ProgramChange { .. } => false,
    }
}

/// The MIDI Learn state machine.
pub struct MidiLearn {
    state: LearnState,
}

impl MidiLearn {
    /// The machine's current state.
    pub closed spec fn state_spec(&self) -> LearnState {
        self.state
    }

    /// Creates an idle learn machine.
    pub fn new() -> (r: Self)
        ensures
            r.state_spec() == LearnState::Idle,
    {
        Self { state: LearnState::Idle }
    }

    /// Opens a learn session for one parameter at time `now_ms`. Returns
    /// true when the machine was idle; a second session cannot be opened
    /// while one is listening.
    pub fn start_learn(
        &mut self,
        device_id: String,
        channel: u32,
        parameter_type: UcNetParameterType,
        now_ms: u64,
    ) -> (r: bool)
        ensures
            r == (old(self).state_spec() == LearnState::Idle),
            r ==> final(self).state_spec() == (LearnState::Listening {
                device_id,
                channel,
                parameter_type,
                started_at: now_ms,
            }),
            !r ==> final(self).state_spec() == old(self).state_spec(),
    {
        match &self.state {
            LearnState::Idle => {
                self.state = LearnState::Listening {
                    device_id,
                    channel,
                    parameter_type,
                    started_at: now_ms,
                };
                true
            },
            _ => false,
        }
    }

    /// Closes any open learn session.
    pub fn cancel_learn(&mut self)
        ensures
            final(self).state_spec() == LearnState::Idle,
    {
        self.state = LearnState::Idle;
    }

    /// Feeds one MIDI message to the machine at time `now_ms`. While idle
    /// every message yields `Waiting`. While listening: a session older than
    /// the timeout yields `Timeout` and closes; a message that is not
    /// learnable yields `Waiting` and leaves the session open; the first
    /// learnable message yields `Success` with the learned mapping and
    /// closes the session.
    pub fn process_message(&mut self, message: &MidiMessageType, now_ms: u64) -> (r: LearnResult)
        ensures
            match old(self).state_spec() {
                LearnState::Idle => r == LearnResult::Waiting && final(self).state_spec()
                    == LearnState::Idle,
                LearnState::Listening { device_id, channel, parameter_type, started_at } => {
                    if started_at <= now_ms && now_ms - started_at > LEARN_TIMEOUT_MS {
                        &&& r == LearnResult::Timeout
                        &&& final(self).state_spec() == LearnState::Idle
                    } else if !spec_is_learnable(*message) {
                        &&& r == LearnResult::Waiting
                        &&& final(self).state_spec() == old(self).state_spec()
                    } else {
                        &&& final(self).state_spec() == LearnState::Idle
                        &&& (r matches LearnResult::Success(m) && spec_learned_mapping(
                            m,
                            *message,
                            device_id@,
                            channel,
                            parameter_type,
                        ))
                    }
                },
            },
    {
        let is_idle = match &self.state {
            LearnState::Idle => true,
            _ => false,
        };
        if is_idle {
            return LearnResult::Waiting;
        }
        let (device_id, channel, parameter_type, started_at) = match &self.state {
            LearnState::Listening { device_id, channel, parameter_type, started_at } => (
                device_id.clone(),
                *channel,
                *parameter_type,
                *started_at,
            ),
            LearnState::Idle => {
                return LearnResult::Waiting;
            },
        };
        let elapsed = if started_at <= now_ms {
            now_ms - started_at
        } else {
            0
        };
        if elapsed > LEARN_TIMEOUT_MS {
            self.state = LearnState::Idle;
            return LearnResult::Timeout;
        }
        if !Self::is_learnable_message(message) {
            return LearnResult::Waiting;
        }
        let mapping = Self::create_mapping(message, device_id, channel, parameter_type);
        self.state = LearnState::Idle;
        match mapping {
            Some(m) => LearnResult::Success(m),
            None => LearnResult::Waiting,
        }
    }

    /// Whether a learn session is open.
    pub fn is_learning(&self) -> (r: bool)
        ensures
            r == (self.state_spec() != LearnState::Idle),
    {
        match &self.state {
            LearnState::Idle => false,
            _ => true,
        }
    }

    /// A copy of the machine's state.
    pub fn get_state(&self) -> (r: LearnState)
        ensures
            r == self.state_spec(),
    {
        self.state.clone()
    }

    /// Whether a message can seed a mapping.
    fn is_learnable_message(message: &MidiMessageType) -> (r: bool)
        ensures
            r == spec_is_learnable(*message),
    {
        match message {
            MidiMessageType::ControlChange { .. } => true,
            MidiMessageType::NoteOn { velocity, .. } => *velocity > 0,
            MidiMessageType::NoteOff { .. } => true,
            MidiMessageType::PitchBend { .. } => true,
            MidiMessageType::ProgramChange { .. } => false,
        }
    }

    /// Builds the mapping a learnable message stands for; `None` only for
    /// Program Change, which is never learnable.
    fn create_mapping(
        message: &MidiMessageType,
        device_id: String,
        channel: u32,
        parameter_type: UcNetParameterType,
    ) -> (r: Option<ParameterMapping>)
        ensures
            match r {
                Some(m) => spec_learned_mapping(
                    m,
                    *message,
                    device_id@,
                    channel,
                    parameter_type,
                ),
                None => !spec_is_learnable(*message) || (*message matches
                    MidiMessageType::NoteOn { velocity, .. } && velocity == 0),
            },
            spec_is_learnable(*message) ==> r is Some,
    {
        let taper_curve = match parameter_type {
            UcNetParameterType::Volume => TaperCurve::AudioTaper,
            UcNetParameterType::Pan => TaperCurve::Linear,
            UcNetParameterType::Mute => TaperCurve::Linear,
        };
        match message {
            MidiMessageType::ControlChange { channel: midi_channel, controller, .. } => Some(
                ParameterMapping {
                    midi_channel: *midi_channel,
                    midi_controller: Some(*controller),
                    midi_note: None,
                    ucnet_device_id: device_id,
                    ucnet_channel: channel,
                    parameter_type,
                    taper_curve,
                    use_14bit: false,
                    midi_controller_msb: None,
                    midi_controller_lsb: None,
                },
            ),
            MidiMessageType::NoteOn { channel: midi_channel, note, .. } => Some(
                ParameterMapping {
                    midi_channel: *midi_channel,
                    midi_controller: None,
                    midi_note: Some(*note),
                    ucnet_device_id: device_id,
                    ucnet_channel: channel,
                    parameter_type,
                    taper_curve: TaperCurve::Linear,
                    use_14bit: false,
                    midi_controller_msb: None,
                    midi_controller_lsb: None,
                },
            ),
            MidiMessageType::NoteOff { channel: midi_channel, note, .. } => Some(
                ParameterMapping {
                    midi_channel: *midi_channel,
                    midi_controller: None,
                    midi_note: Some(*note),
                    ucnet_device_id: device_id,
                    ucnet_channel: channel,
                    parameter_type,
                    taper_curve: TaperCurve::Linear,
                    use_14bit: false,
                    midi_controller_msb: None,
                    midi_controller_lsb: None,
                },
            ),
            MidiMessageType::PitchBend { channel: midi_channel, .. } => Some(
                ParameterMapping {
                    midi_channel: *midi_channel,
                    // The reserved controller number that stands for pitch
                    // bend in a learned mapping.
                    midi_controller: Some(128),
                    midi_note: None,
                    ucnet_device_id: device_id,
                    ucnet_channel: channel,
                    parameter_type,
                    taper_curve,
                    use_14bit: false,
                    midi_controller_msb: None,
                    midi_controller_lsb: None,
                },
            ),
            MidiMessageType::ProgramChange { .. } => None,
        }
    }
}

impl Default for MidiLearn {
    /// An idle learn machine.
    fn default() -> (r: Self)
        ensures
            r.state_spec() == LearnState::Idle,
    {
        Self::new()
    }
}

} // verus!
