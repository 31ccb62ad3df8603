//! Tests of forward and reverse parameter translation, including the 14-bit
//! MSB/LSB pairing.

use faderbridge::mapper::ParameterMapper;
use faderbridge::midi::MidiMessageType;
use faderbridge::translation::{
    ParameterMapping, TaperCurve, UcNetParameterType, UcNetParameterValue,
};

#[test]
fn test_translate_volume_cc() {
    let mut mapper = ParameterMapper::new();

    let mapping = ParameterMapping::new_volume(0, 7, "device-1".to_string(), 1, TaperCurve::Linear);
    mapper.add_mapping(mapping);

    let message = MidiMessageType::ControlChange { channel: 0, controller: 7, value: 64 };

    let results = mapper.translate(message);
    assert_eq!(results.len(), 1);

    let result = &results[0];
    assert_eq!(result.device_id, "device-1");
    assert_eq!(result.channel, 1);
    assert_eq!(result.parameter_type, UcNetParameterType::Volume);

    // 64/127 is about 0.504 of the range.
    if let UcNetParameterValue::Float(value) = result.value {
        assert!((value - 504_000).abs() < 10_000);
    } else {
        panic!("Expected Float value");
    }
}

#[test]
fn test_translate_volume_with_audio_taper() {
    let mut mapper = ParameterMapper::new();

    let mapping =
        ParameterMapping::new_volume(0, 7, "device-1".to_string(), 1, TaperCurve::AudioTaper);
    mapper.add_mapping(mapping);

    let message = MidiMessageType::ControlChange { channel: 0, controller: 7, value: 64 };

    let results = mapper.translate(message);
    assert_eq!(results.len(), 1);

    if let UcNetParameterValue::Float(value) = results[0].value {
        // With the audio taper the midpoint lands well below linear.
        assert!(value < 504_000);
        assert!(value > 0);
    } else {
        panic!("Expected Float value");
    }
}

#[test]
fn test_translate_pan_cc() {
    let mut mapper = ParameterMapper::new();

    let mapping = ParameterMapping::new_pan(0, 10, "device-1".to_string(), 1);
    mapper.add_mapping(mapping);

    let message = MidiMessageType::ControlChange { channel: 0, controller: 10, value: 64 };
    let results = mapper.translate(message);
    assert_eq!(results.len(), 1);
    if let UcNetParameterValue::Float(value) = results[0].value {
        assert!(value.abs() < 50_000);
    } else {
        panic!("Expected Float value");
    }

    let message_left = MidiMessageType::ControlChange { channel: 0, controller: 10, value: 0 };
    let results_left = mapper.translate(message_left);
    if let UcNetParameterValue::Float(value) = results_left[0].value {
        assert!((value - (-1_000_000)).abs() < 10_000);
    }

    let message_right = MidiMessageType::ControlChange { channel: 0, controller: 10, value: 127 };
    let results_right = mapper.translate(message_right);
    if let UcNetParameterValue::Float(value) = results_right[0].value {
        assert!((value - 1_000_000).abs() < 10_000);
    }
}

#[test]
fn test_translate_mute_note() {
    let mut mapper = ParameterMapper::new();

    let mapping = ParameterMapping::new_mute(0, 60, "device-1".to_string(), 1);
    mapper.add_mapping(mapping);

    let message_on = MidiMessageType::NoteOn { channel: 0, note: 60, velocity: 127 };
    let results = mapper.translate(message_on);
    assert_eq!(results.len(), 1);
    assert_eq!(results[0].parameter_type, UcNetParameterType::Mute);
    assert_eq!(results[0].value, UcNetParameterValue::Bool(true));

    let message_off = MidiMessageType::NoteOff { channel: 0, note: 60, velocity: 0 };
    let results = mapper.translate(message_off);
    assert_eq!(results.len(), 1);
    assert_eq!(results[0].value, UcNetParameterValue::Bool(false));
}

#[test]
fn test_translate_14bit_volume() {
    let mut mapper = ParameterMapper::new();

    let mapping = ParameterMapping::new_volume_14bit(
        0,
        7,
        39,
        "device-1".to_string(),
        1,
        TaperCurve::Linear,
    );
    mapper.add_mapping(mapping);

    // The MSB byte alone yields no result: it is only buffered.
    let message_msb = MidiMessageType::ControlChange { channel: 0, controller: 7, value: 64 };
    let results_msb = mapper.translate(message_msb);
    assert_eq!(results_msb.len(), 0);

    // The LSB byte combines with the buffered MSB into one result near 0.5.
    let message_lsb = MidiMessageType::ControlChange { channel: 0, controller: 39, value: 0 };
    let results_lsb = mapper.translate(message_lsb);
    assert_eq!(results_lsb.len(), 1);

    if let UcNetParameterValue::Float(value) = results_lsb[0].value {
        assert!((value - 500_000).abs() < 10_000);
    } else {
        panic!("Expected Float value");
    }
}

#[test]
fn test_multiple_mappings() {
    let mut mapper = ParameterMapper::new();

    mapper.add_mapping(ParameterMapping::new_volume(
        0,
        7,
        "device-1".to_string(),
        1,
        TaperCurve::Linear,
    ));
    mapper.add_mapping(ParameterMapping::new_volume(
        0,
        7,
        "device-1".to_string(),
        2,
        TaperCurve::Linear,
    ));

    let message = MidiMessageType::ControlChange { channel: 0, controller: 7, value: 100 };

    let results = mapper.translate(message);
    assert_eq!(results.len(), 2);
    assert_eq!(results[0].channel, 1);
    assert_eq!(results[1].channel, 2);
}

#[test]
fn test_remove_mapping() {
    let mut mapper = ParameterMapper::new();

    mapper.add_mapping(ParameterMapping::new_volume(
        0,
        7,
        "device-1".to_string(),
        1,
        TaperCurve::Linear,
    ));

    assert_eq!(mapper.get_mappings().len(), 1);

    mapper.remove_mapping(0, Some(7), None);
    assert_eq!(mapper.get_mappings().len(), 0);
}

#[test]
fn test_clear_mappings() {
    let mut mapper = ParameterMapper::new();

    mapper.add_mapping(ParameterMapping::new_volume(
        0,
        7,
        "device-1".to_string(),
        1,
        TaperCurve::Linear,
    ));
    mapper.add_mapping(ParameterMapping::new_pan(0, 10, "device-1".to_string(), 1));

    assert_eq!(mapper.get_mappings().len(), 2);

    mapper.clear_mappings();
    assert_eq!(mapper.get_mappings().len(), 0);
}

#[test]
fn test_no_matching_mapping() {
    let mut mapper = ParameterMapper::new();

    mapper.add_mapping(ParameterMapping::new_volume(
        0,
        7,
        "device-1".to_string(),
        1,
        TaperCurve::Linear,
    ));

    let message = MidiMessageType::ControlChange { channel: 0, controller: 8, value: 64 };

    let results = mapper.translate(message);
    assert_eq!(results.len(), 0);
}

#[test]
fn test_reverse_translate_volume() {
    let mut mapper = ParameterMapper::new();

    mapper.add_mapping(ParameterMapping::new_volume(
        0,
        7,
        "device-1".to_string(),
        1,
        TaperCurve::Linear,
    ));

    let messages = mapper.reverse_translate(
        "device-1",
        1,
        UcNetParameterType::Volume,
        UcNetParameterValue::Float(500_000),
    );

    assert_eq!(messages.len(), 1);
    match messages[0] {
        MidiMessageType::ControlChange { channel, controller, value } => {
            assert_eq!(channel, 0);
            assert_eq!(controller, 7);
            assert_eq!(value, 64);
        },
        _ => panic!("Expected ControlChange message"),
    }
}

#[test]
fn test_reverse_translate_volume_with_audio_taper() {
    let mut mapper = ParameterMapper::new();

    mapper.add_mapping(ParameterMapping::new_volume(
        0,
        7,
        "device-1".to_string(),
        1,
        TaperCurve::AudioTaper,
    ));

    // A level of 0.177 reverses through the audio taper to about 0.5.
    let messages = mapper.reverse_translate(
        "device-1",
        1,
        UcNetParameterType::Volume,
        UcNetParameterValue::Float(177_000),
    );

    assert_eq!(messages.len(), 1);
    match messages[0] {
        MidiMessageType::ControlChange { value, .. } => {
            assert!((value as i16 - 64).abs() <= 2);
        },
        _ => panic!("Expected ControlChange message"),
    }
}

#[test]
fn test_reverse_translate_pan() {
    let mut mapper = ParameterMapper::new();

    mapper.add_mapping(ParameterMapping::new_pan(0, 10, "device-1".to_string(), 1));

    let messages = mapper.reverse_translate(
        "device-1",
        1,
        UcNetParameterType::Pan,
        UcNetParameterValue::Float(0),
    );

    assert_eq!(messages.len(), 1);
    match messages[0] {
        MidiMessageType::ControlChange { channel, controller, value } => {
            assert_eq!(channel, 0);
            assert_eq!(controller, 10);
            assert!((value as i16 - 64).abs() <= 1);
        },
        _ => panic!("Expected ControlChange message"),
    }

    let messages_left = mapper.reverse_translate(
        "device-1",
        1,
        UcNetParameterType::Pan,
        UcNetParameterValue::Float(-1_000_000),
    );
    match messages_left[0] {
        MidiMessageType::ControlChange { value, .. } => {
            assert_eq!(value, 0);
        },
        _ => panic!("Expected ControlChange message"),
    }

    let messages_right = mapper.reverse_translate(
        "device-1",
        1,
        UcNetParameterType::Pan,
        UcNetParameterValue::Float(1_000_000),
    );
    match messages_right[0] {
        MidiMessageType::ControlChange { value, .. } => {
            assert_eq!(value, 127);
        },
        _ => panic!("Expected ControlChange message"),
    }
}

#[test]
fn test_reverse_translate_mute() {
    let mut mapper = ParameterMapper::new();

    mapper.add_mapping(ParameterMapping::new_mute(0, 60, "device-1".to_string(), 1));

    let messages_on = mapper.reverse_translate(
        "device-1",
        1,
        UcNetParameterType::Mute,
        UcNetParameterValue::Bool(true),
    );

    assert_eq!(messages_on.len(), 1);
    match messages_on[0] {
        MidiMessageType::NoteOn { channel, note, velocity } => {
            assert_eq!(channel, 0);
            assert_eq!(note, 60);
            assert_eq!(velocity, 127);
        },
        _ => panic!("Expected NoteOn message"),
    }

    let messages_off = mapper.reverse_translate(
        "device-1",
        1,
        UcNetParameterType::Mute,
        UcNetParameterValue::Bool(false),
    );

    assert_eq!(messages_off.len(), 1);
    match messages_off[0] {
        MidiMessageType::NoteOff { channel, note, .. } => {
            assert_eq!(channel, 0);
            assert_eq!(note, 60);
        },
        _ => panic!("Expected NoteOff message"),
    }
}

#[test]
fn test_reverse_translate_14bit() {
    let mut mapper = ParameterMapper::new();

    mapper.add_mapping(ParameterMapping::new_volume_14bit(
        0,
        7,
        39,
        "device-1".to_string(),
        1,
        TaperCurve::Linear,
    ));

    let messages = mapper.reverse_translate(
        "device-1",
        1,
        UcNetParameterType::Volume,
        UcNetParameterValue::Float(500_000),
    );

    // The MSB message comes first, then the LSB message.
    assert_eq!(messages.len(), 2);

    match messages[0] {
        MidiMessageType::ControlChange { channel, controller, value } => {
            assert_eq!(channel, 0);
            assert_eq!(controller, 7);
            assert_eq!(value, 64);
        },
        _ => panic!("Expected ControlChange message for MSB"),
    }

    match messages[1] {
        MidiMessageType::ControlChange { channel, controller, value } => {
            assert_eq!(channel, 0);
            assert_eq!(controller, 39);
            assert_eq!(value, 0);
        },
        _ => panic!("Expected ControlChange message for LSB"),
    }
}

#[test]
fn test_reverse_translate_no_mapping() {
    let mapper = ParameterMapper::new();

    let messages = mapper.reverse_translate(
        "device-1",
        1,
        UcNetParameterType::Volume,
        UcNetParameterValue::Float(500_000),
    );

    assert_eq!(messages.len(), 0);
}

#[test]
fn test_reverse_translate_multiple_mappings() {
    let mut mapper = ParameterMapper::new();

    mapper.add_mapping(ParameterMapping::new_volume(
        0,
        7,
        "device-1".to_string(),
        1,
        TaperCurve::Linear,
    ));
    mapper.add_mapping(ParameterMapping::new_volume(
        1,
        8,
        "device-1".to_string(),
        1,
        TaperCurve::Linear,
    ));

    let messages = mapper.reverse_translate(
        "device-1",
        1,
        UcNetParameterType::Volume,
        UcNetParameterValue::Float(500_000),
    );

    assert_eq!(messages.len(), 2);
}
