//! Tests of the MIDI Learn state machine and its outward-facing forms.

use faderbridge::learn::{LearnResult, LearnState, MidiLearn, LEARN_TIMEOUT_MS};
use faderbridge::learn_api::{LearnResultDto, LearnStateDto, MidiLearnState};
use faderbridge::midi::MidiMessageType;
use faderbridge::translation::{ParameterMapping, TaperCurve, UcNetParameterType};

#[test]
fn test_start_learn() {
    let mut learn = MidiLearn::new();
    assert!(!learn.is_learning());

    let result = learn.start_learn("device-1".to_string(), 1, UcNetParameterType::Volume, 0);
    assert!(result);
    assert!(learn.is_learning());
}

#[test]
fn test_cannot_start_learn_twice() {
    let mut learn = MidiLearn::new();

    let result1 = learn.start_learn("device-1".to_string(), 1, UcNetParameterType::Volume, 0);
    assert!(result1);

    let result2 = learn.start_learn("device-2".to_string(), 2, UcNetParameterType::Mute, 0);
    assert!(!result2);
}

#[test]
fn test_cancel_learn() {
    let mut learn = MidiLearn::new();

    learn.start_learn("device-1".to_string(), 1, UcNetParameterType::Volume, 0);
    assert!(learn.is_learning());

    learn.cancel_learn();
    assert!(!learn.is_learning());
}

#[test]
fn test_learn_from_control_change() {
    let mut learn = MidiLearn::new();

    learn.start_learn("device-1".to_string(), 1, UcNetParameterType::Volume, 0);

    let message = MidiMessageType::ControlChange { channel: 0, controller: 7, value: 64 };

    let result = learn.process_message(&message, 1);

    match result {
        LearnResult::Success(mapping) => {
            assert_eq!(mapping.midi_channel, 0);
            assert_eq!(mapping.midi_controller, Some(7));
            assert_eq!(mapping.ucnet_device_id, "device-1");
            assert_eq!(mapping.ucnet_channel, 1);
            assert_eq!(mapping.parameter_type, UcNetParameterType::Volume);
            assert_eq!(mapping.taper_curve, TaperCurve::AudioTaper);
        },
        _ => panic!("Expected LearnResult::Success"),
    }

    assert!(!learn.is_learning());
}

#[test]
fn test_learn_from_note_on() {
    let mut learn = MidiLearn::new();

    learn.start_learn("device-1".to_string(), 2, UcNetParameterType::Mute, 0);

    let message = MidiMessageType::NoteOn { channel: 0, note: 60, velocity: 127 };

    let result = learn.process_message(&message, 1);

    match result {
        LearnResult::Success(mapping) => {
            assert_eq!(mapping.midi_channel, 0);
            assert_eq!(mapping.midi_note, Some(60));
            assert_eq!(mapping.ucnet_device_id, "device-1");
            assert_eq!(mapping.ucnet_channel, 2);
            assert_eq!(mapping.parameter_type, UcNetParameterType::Mute);
        },
        _ => panic!("Expected LearnResult::Success"),
    }
}

#[test]
fn test_learn_from_pitch_bend() {
    let mut learn = MidiLearn::new();

    learn.start_learn("device-1".to_string(), 3, UcNetParameterType::Pan, 0);

    let message = MidiMessageType::PitchBend { channel: 0, value: 8192 };

    let result = learn.process_message(&message, 1);

    match result {
        LearnResult::Success(mapping) => {
            assert_eq!(mapping.midi_channel, 0);
            // The reserved controller number that stands for pitch bend.
            assert_eq!(mapping.midi_controller, Some(128));
            assert_eq!(mapping.ucnet_device_id, "device-1");
            assert_eq!(mapping.ucnet_channel, 3);
            assert_eq!(mapping.parameter_type, UcNetParameterType::Pan);
        },
        _ => panic!("Expected LearnResult::Success"),
    }
}

#[test]
fn test_filter_program_change() {
    let mut learn = MidiLearn::new();

    learn.start_learn("device-1".to_string(), 1, UcNetParameterType::Volume, 0);

    let message = MidiMessageType::ProgramChange { channel: 0, program: 10 };

    let result = learn.process_message(&message, 1);
    assert_eq!(result, LearnResult::Waiting);
    assert!(learn.is_learning());
}

#[test]
fn test_filter_note_on_zero_velocity() {
    let mut learn = MidiLearn::new();

    learn.start_learn("device-1".to_string(), 1, UcNetParameterType::Mute, 0);

    let message = MidiMessageType::NoteOn { channel: 0, note: 60, velocity: 0 };

    let result = learn.process_message(&message, 1);
    assert_eq!(result, LearnResult::Waiting);
    assert!(learn.is_learning());
}

#[test]
fn test_process_message_when_idle() {
    let mut learn = MidiLearn::new();

    let message = MidiMessageType::ControlChange { channel: 0, controller: 7, value: 64 };

    let result = learn.process_message(&message, 0);
    assert_eq!(result, LearnResult::Waiting);
}

#[test]
fn test_learn_timeout() {
    let mut learn = MidiLearn::new();

    learn.start_learn("device-1".to_string(), 1, UcNetParameterType::Volume, 1000);

    let message = MidiMessageType::ControlChange { channel: 0, controller: 7, value: 64 };

    // Past the ten-second window the session closes with a timeout.
    let result = learn.process_message(&message, 1000 + LEARN_TIMEOUT_MS + 1);
    assert_eq!(result, LearnResult::Timeout);
    assert!(!learn.is_learning());
}

#[test]
fn test_get_state() {
    let mut learn = MidiLearn::new();

    let state = learn.get_state();
    assert_eq!(state, LearnState::Idle);

    learn.start_learn("device-1".to_string(), 1, UcNetParameterType::Volume, 5);

    let state = learn.get_state();
    match state {
        LearnState::Listening { device_id, channel, parameter_type, started_at } => {
            assert_eq!(device_id, "device-1");
            assert_eq!(channel, 1);
            assert_eq!(parameter_type, UcNetParameterType::Volume);
            assert_eq!(started_at, 5);
        },
        _ => panic!("Expected LearnState::Listening"),
    }
}

#[test]
fn test_learn_state_dto_from_idle() {
    let state = LearnState::Idle;
    let dto = LearnStateDto::from_state(state, 0);

    match dto {
        LearnStateDto::Idle => {},
        _ => panic!("Expected Idle state"),
    }
}

#[test]
fn test_learn_state_dto_from_listening() {
    let state = LearnState::Listening {
        device_id: "device-1".to_string(),
        channel: 1,
        parameter_type: UcNetParameterType::Volume,
        started_at: 100,
    };

    let dto = LearnStateDto::from_state(state, 350);

    match dto {
        LearnStateDto::Listening { device_id, channel, parameter_type, elapsed_ms } => {
            assert_eq!(device_id, "device-1");
            assert_eq!(channel, 1);
            assert_eq!(parameter_type, UcNetParameterType::Volume);
            assert_eq!(elapsed_ms, 250);
        },
        _ => panic!("Expected Listening state"),
    }
}

#[test]
fn test_learn_result_dto_from_success() {
    let mapping =
        ParameterMapping::new_volume(0, 7, "device-1".to_string(), 1, TaperCurve::AudioTaper);

    let result = LearnResult::Success(mapping.clone());
    let dto = LearnResultDto::from(result);

    match dto {
        LearnResultDto::Success { mapping: m } => {
            assert_eq!(m.midi_channel, 0);
            assert_eq!(m.midi_controller, Some(7));
        },
        _ => panic!("Expected Success result"),
    }
}

#[test]
fn test_learn_result_dto_from_timeout() {
    let result = LearnResult::Timeout;
    let dto = LearnResultDto::from(result);

    match dto {
        LearnResultDto::Timeout => {},
        _ => panic!("Expected Timeout result"),
    }
}

#[test]
fn test_learn_result_dto_from_cancelled() {
    let result = LearnResult::Cancelled;
    let dto = LearnResultDto::from(result);

    match dto {
        LearnResultDto::Cancelled => {},
        _ => panic!("Expected Cancelled result"),
    }
}

#[test]
fn test_learn_result_dto_from_waiting() {
    let result = LearnResult::Waiting;
    let dto = LearnResultDto::from(result);

    match dto {
        LearnResultDto::Waiting => {},
        _ => panic!("Expected Waiting result"),
    }
}

#[test]
fn test_midi_learn_state_new() {
    let state = MidiLearnState::new();
    assert!(!state.learn.is_learning());
}
