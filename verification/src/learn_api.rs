//! Outward-facing forms of the MIDI Learn state and results, for a command
//! or IPC layer to serialise.

use vstd::prelude::*;
use crate::learn::{LearnResult, LearnState, MidiLearn};
use crate::translation::{ParameterMapping, UcNetParameterType};

verus! {

/// The learn state as the outer layer sees it, with the session's age in
/// place of its start time.
#[derive(Debug)]
pub enum LearnStateDto {
    /// Not learning.
    Idle,
    /// Waiting for a learnable MIDI event.
    Listening {
        /// Target UCNet device id.
        device_id: String,
        /// Target UCNet channel.
        channel: u32,
        /// Parameter type being learned.
        parameter_type: UcNetParameterType,
        /// How long the session has been open, in milliseconds.
        elapsed_ms: u128,
    },
}

impl LearnStateDto {
    /// The outward form of a learn state at time `now_ms`; a session
    /// stamped in the future counts as just opened.
    pub fn from_state(state: LearnState, now_ms: u64) -> (r: Self)
        ensures
            match state {
                LearnState::Idle => r == LearnStateDto::Idle,
                LearnState::Listening { device_id, channel, parameter_type, started_at } => (
                r matches LearnStateDto::Listening {
                    device_id: d,
                    channel: c,
                    parameter_type: p,
                    elapsed_ms: e,
                } && d == device_id && c == channel && p == parameter_type && e as int == (
                if started_at <= now_ms {
                    now_ms - started_at
                } else {
                    0
                })),
            },
    {
        match state {
            LearnState::Idle => LearnStateDto::Idle,
            LearnState::Listening { device_id, channel, parameter_type, started_at } => {
                let elapsed: u64 = if started_at <= now_ms {
                    now_ms - started_at
                } else {
                    0
                };
                LearnStateDto::Listening {
                    device_id,
                    channel,
                    parameter_type,
                    elapsed_ms: elapsed as u128,
                }
            },
        }
    }
}

/// The learn outcome as the outer layer sees it.
#[derive(Debug)]
pub enum LearnResultDto {
    /// A mapping was learned.
    Success { mapping: ParameterMapping },
    /// The session timed out.
    Timeout,
    /// The session was cancelled.
    Cancelled,
    /// Still waiting for a learnable event.
    Waiting,
}

impl LearnResultDto {
    /// The outward form of a learn outcome.
    pub fn from_result(result: LearnResult) -> (r: Self)
        ensures
            match result {
                LearnResult::Success(m) => r matches LearnResultDto::Success { mapping } && mapping
                    == m,
                LearnResult::Timeout => r == LearnResultDto::Timeout,
                LearnResult::Cancelled => r == LearnResultDto::Cancelled,
                LearnResult::Waiting => r == LearnResultDto::Waiting,
            },
    {
        match result {
            LearnResult::Success(mapping) => LearnResultDto::Success { mapping },
            LearnResult::Timeout => LearnResultDto::Timeout,
            LearnResult::Cancelled => LearnResultDto::Cancelled,
            LearnResult::Waiting => LearnResultDto::Waiting,
        }
    }
}

impl From<LearnResult> for LearnResultDto {
    /// The outward form of a learn outcome.
    fn from(result: LearnResult) -> Self {
        LearnResultDto::from_result(result)
    }
}

impl vstd::std_specs::convert::FromSpecImpl<LearnResult> for LearnResultDto {
    open spec fn obeys_from_spec() -> bool {
        false
    }

    open spec fn from_spec(t: LearnResult) -> Self {
        LearnResultDto::Waiting
    }
}

/// The learn machine as the outer layer holds it.
pub struct MidiLearnState {
    /// The learn machine.
    pub learn: MidiLearn,
}

impl MidiLearnState {
    /// Creates an idle learn machine.
    pub fn new() -> (r: Self)
        ensures
            r.learn.state_spec() == LearnState::Idle,
    {
        Self { learn: MidiLearn::new() }
    }
}

impl Default for MidiLearnState {
    /// An idle learn machine.
    fn default() -> (r: Self)
        ensures
            r.learn.state_spec() == LearnState::Idle,
    {
        Self::new()
    }
}

} // verus!
