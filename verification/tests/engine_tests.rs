//! End-to-end tests of the synchronisation engine: translation, echo
//! suppression, reverse translation and latency accounting.

use faderbridge::engine::SyncEngine;
use faderbridge::midi::MidiMessageType;
use faderbridge::requests::AddMappingRequest;
use faderbridge::translation::{
    ParameterMapping, TaperCurve, UcNetParameterType, UcNetParameterValue,
};

#[test]
fn test_sync_engine_creation() {
    let engine = SyncEngine::default();
    assert_eq!(engine.get_mappings().len(), 0);
}

#[test]
fn test_add_and_get_mappings() {
    let mut engine = SyncEngine::default();

    let mapping = ParameterMapping::new_volume(0, 7, "device-1".to_string(), 1, TaperCurve::Linear);

    engine.add_mapping(mapping);
    assert_eq!(engine.get_mappings().len(), 1);
}

#[test]
fn test_handle_midi_message() {
    // One Volume/Linear mapping: ControlChange{0, 7, 64} yields exactly one
    // result for device-1 channel 1 with a level near 0.504.
    let mut engine = SyncEngine::default();

    let mapping = ParameterMapping::new_volume(0, 7, "device-1".to_string(), 1, TaperCurve::Linear);
    engine.add_mapping(mapping);

    let message = MidiMessageType::ControlChange { channel: 0, controller: 7, value: 64 };

    let results = engine.handle_midi_message("midi-1".to_string(), message, 0);

    assert_eq!(results.len(), 1);
    assert_eq!(results[0].device_id, "device-1");
    assert_eq!(results[0].channel, 1);
    assert_eq!(results[0].parameter_type, UcNetParameterType::Volume);
    match results[0].value {
        UcNetParameterValue::Float(v) => assert!((v - 504_000).abs() < 10_000),
        _ => panic!("Expected Float value"),
    }
}

#[test]
fn test_feedback_loop_prevention() {
    // Resending the identical message yields nothing: the shadow state saw
    // the value the first time.
    let mut engine = SyncEngine::default();

    let mapping = ParameterMapping::new_volume(0, 7, "device-1".to_string(), 1, TaperCurve::Linear);
    engine.add_mapping(mapping);

    let message = MidiMessageType::ControlChange { channel: 0, controller: 7, value: 64 };

    let results1 = engine.handle_midi_message("midi-1".to_string(), message, 0);
    assert_eq!(results1.len(), 1);

    let results2 = engine.handle_midi_message("midi-1".to_string(), message, 1);
    assert_eq!(results2.len(), 0);
}

#[test]
fn test_mute_note_round() {
    // A mute mapping on note 60: Note On with velocity yields Bool(true),
    // Note Off yields Bool(false).
    let mut engine = SyncEngine::default();
    engine.add_mapping(ParameterMapping::new_mute(0, 60, "device-1".to_string(), 1));

    let on = MidiMessageType::NoteOn { channel: 0, note: 60, velocity: 127 };
    let results_on = engine.handle_midi_message("midi-1".to_string(), on, 0);
    assert_eq!(results_on.len(), 1);
    assert_eq!(results_on[0].value, UcNetParameterValue::Bool(true));

    let off = MidiMessageType::NoteOff { channel: 0, note: 60, velocity: 0 };
    let results_off = engine.handle_midi_message("midi-1".to_string(), off, 1);
    assert_eq!(results_off.len(), 1);
    assert_eq!(results_off[0].value, UcNetParameterValue::Bool(false));
}

#[test]
fn test_latency_stats() {
    let mut engine = SyncEngine::default();

    assert!(engine.get_latency_stats().is_none());

    engine.record_latency(100);
    engine.record_latency(300);
    engine.record_latency(200);

    let stats = engine.get_latency_stats().unwrap();
    assert_eq!(stats.sample_count, 3);
    assert_eq!(stats.min_us, 100);
    assert_eq!(stats.max_us, 300);
    assert_eq!(stats.avg_us, 200);

    engine.clear_latency_stats();
    assert!(engine.get_latency_stats().is_none());
}

#[test]
fn test_latency_buffer_eviction() {
    let mut engine = SyncEngine::new(2);
    engine.record_latency(10);
    engine.record_latency(20);
    engine.record_latency(30);

    let stats = engine.get_latency_stats().unwrap();
    assert_eq!(stats.sample_count, 2);
    // The oldest sample left the buffer.
    assert_eq!(stats.min_us, 20);
    assert_eq!(stats.max_us, 30);
}

#[test]
fn test_clear_device_state() {
    let mut engine = SyncEngine::default();

    let mapping = ParameterMapping::new_volume(0, 7, "device-1".to_string(), 1, TaperCurve::Linear);
    engine.add_mapping(mapping);

    let message = MidiMessageType::ControlChange { channel: 0, controller: 7, value: 64 };

    engine.handle_midi_message("midi-1".to_string(), message, 0);

    engine.clear_device_state("device-1");

    let results = engine.handle_midi_message("midi-1".to_string(), message, 1);
    assert_eq!(results.len(), 1);
}

#[test]
fn test_clear_all_state() {
    let mut engine = SyncEngine::default();
    engine.add_mapping(ParameterMapping::new_mute(0, 60, "device-1".to_string(), 1));

    let on = MidiMessageType::NoteOn { channel: 0, note: 60, velocity: 127 };
    assert_eq!(engine.handle_midi_message("midi-1".to_string(), on, 0).len(), 1);
    assert_eq!(engine.handle_midi_message("midi-1".to_string(), on, 1).len(), 0);

    engine.clear_all_state();
    assert_eq!(engine.handle_midi_message("midi-1".to_string(), on, 2).len(), 1);
}

#[test]
fn test_handle_ucnet_change() {
    // The same Volume mapping reversed: a mixer change of 0.5 yields exactly
    // one ControlChange{channel 0, controller 7, value 64}.
    let mut engine = SyncEngine::default();

    let mapping = ParameterMapping::new_volume(0, 7, "device-1".to_string(), 1, TaperCurve::Linear);
    engine.add_mapping(mapping);

    let results = engine.handle_ucnet_change(
        "device-1".to_string(),
        1,
        UcNetParameterType::Volume,
        UcNetParameterValue::Float(500_000),
        0,
    );

    assert_eq!(results.len(), 1);
    match results[0] {
        MidiMessageType::ControlChange { channel, controller, value } => {
            assert_eq!(channel, 0);
            assert_eq!(controller, 7);
            assert_eq!(value, 64);
        },
        _ => panic!("Expected ControlChange message"),
    }
}

#[test]
fn test_ucnet_change_feedback_prevention() {
    let mut engine = SyncEngine::default();

    let mapping = ParameterMapping::new_volume(0, 7, "device-1".to_string(), 1, TaperCurve::Linear);
    engine.add_mapping(mapping);

    let results1 = engine.handle_ucnet_change(
        "device-1".to_string(),
        1,
        UcNetParameterType::Volume,
        UcNetParameterValue::Float(500_000),
        0,
    );
    assert_eq!(results1.len(), 1);

    let results2 = engine.handle_ucnet_change(
        "device-1".to_string(),
        1,
        UcNetParameterType::Volume,
        UcNetParameterValue::Float(500_000),
        1,
    );
    assert_eq!(results2.len(), 0);
}

#[test]
fn test_midi_then_ucnet_echo_suppressed() {
    // The full loop-prevention path: a MIDI move is forwarded to the mixer,
    // and the mixer's echo of the same value produces no MIDI messages.
    let mut engine = SyncEngine::default();
    engine.add_mapping(ParameterMapping::new_volume(
        0,
        7,
        "device-1".to_string(),
        1,
        TaperCurve::Linear,
    ));

    let message = MidiMessageType::ControlChange { channel: 0, controller: 7, value: 64 };
    let results = engine.handle_midi_message("midi-1".to_string(), message, 0);
    assert_eq!(results.len(), 1);
    let forwarded = match results[0].value {
        UcNetParameterValue::Float(v) => v,
        _ => panic!("Expected Float value"),
    };

    let echo = engine.handle_ucnet_change(
        "device-1".to_string(),
        1,
        UcNetParameterType::Volume,
        UcNetParameterValue::Float(forwarded),
        5,
    );
    assert_eq!(echo.len(), 0);
}

#[test]
fn test_remove_mapping_via_engine() {
    let mut engine = SyncEngine::default();
    engine.add_mapping(ParameterMapping::new_volume(
        0,
        7,
        "device-1".to_string(),
        1,
        TaperCurve::Linear,
    ));
    engine.add_mapping(ParameterMapping::new_pan(0, 10, "device-1".to_string(), 1));

    engine.remove_mapping(0, Some(7), None);
    let mappings = engine.get_mappings();
    assert_eq!(mappings.len(), 1);
    assert_eq!(mappings[0].midi_controller, Some(10));

    engine.clear_mappings();
    assert_eq!(engine.get_mappings().len(), 0);
}

#[test]
fn test_add_mapping_request_volume() {
    let request = AddMappingRequest {
        midi_channel: 0,
        midi_controller: Some(7),
        midi_note: None,
        ucnet_device_id: "device-1".to_string(),
        ucnet_channel: 1,
        parameter_type: "volume".to_string(),
        taper_curve: Some("audio".to_string()),
        use_14bit: None,
        midi_controller_msb: None,
        midi_controller_lsb: None,
    };
    let mapping = request.to_mapping().unwrap();
    assert_eq!(mapping.parameter_type, UcNetParameterType::Volume);
    assert_eq!(mapping.taper_curve, TaperCurve::AudioTaper);
    assert_eq!(mapping.midi_controller, Some(7));
}

#[test]
fn test_add_mapping_request_mute_needs_note() {
    let request = AddMappingRequest {
        midi_channel: 0,
        midi_controller: Some(7),
        midi_note: None,
        ucnet_device_id: "device-1".to_string(),
        ucnet_channel: 1,
        parameter_type: "mute".to_string(),
        taper_curve: None,
        use_14bit: None,
        midi_controller_msb: None,
        midi_controller_lsb: None,
    };
    assert!(request.to_mapping().is_err());
}

#[test]
fn test_add_mapping_request_unknown_type() {
    let request = AddMappingRequest {
        midi_channel: 0,
        midi_controller: Some(7),
        midi_note: None,
        ucnet_device_id: "device-1".to_string(),
        ucnet_channel: 1,
        parameter_type: "solo".to_string(),
        taper_curve: None,
        use_14bit: None,
        midi_controller_msb: None,
        midi_controller_lsb: None,
    };
    assert!(request.to_mapping().is_err());
}

#[test]
fn test_add_mapping_request_14bit_pan() {
    let request = AddMappingRequest {
        midi_channel: 2,
        midi_controller: None,
        midi_note: None,
        ucnet_device_id: "device-9".to_string(),
        ucnet_channel: 4,
        parameter_type: "pan".to_string(),
        taper_curve: None,
        use_14bit: Some(true),
        midi_controller_msb: Some(10),
        midi_controller_lsb: Some(42),
    };
    let mapping = request.to_mapping().unwrap();
    assert_eq!(mapping.parameter_type, UcNetParameterType::Pan);
    assert!(mapping.use_14bit);
    assert_eq!(mapping.midi_controller_msb, Some(10));
    assert_eq!(mapping.midi_controller_lsb, Some(42));
}
