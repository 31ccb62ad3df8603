//! Tests of the MIDI message codec and the mapping constructors.

use faderbridge::midi::MidiMessageType;
use faderbridge::translation::{ParameterMapping, TaperCurve, UcNetParameterType};

#[test]
fn test_parse_control_change() {
    let bytes = [0xB0, 0x07, 0x64];
    let msg = MidiMessageType::from_bytes(&bytes);
    assert_eq!(
        msg,
        Some(MidiMessageType::ControlChange { channel: 0, controller: 7, value: 100 })
    );
}

#[test]
fn test_parse_note_on() {
    let bytes = [0x91, 0x3C, 0x7F];
    let msg = MidiMessageType::from_bytes(&bytes);
    assert_eq!(msg, Some(MidiMessageType::NoteOn { channel: 1, note: 60, velocity: 127 }));
}

#[test]
fn test_parse_pitch_bend() {
    let bytes = [0xE0, 0x00, 0x40];
    let msg = MidiMessageType::from_bytes(&bytes);
    assert_eq!(msg, Some(MidiMessageType::PitchBend { channel: 0, value: 0x2000 }));
}

#[test]
fn test_parse_truncated_message() {
    assert_eq!(MidiMessageType::from_bytes(&[]), None);
    assert_eq!(MidiMessageType::from_bytes(&[0xB0, 0x07]), None);
    assert_eq!(MidiMessageType::from_bytes(&[0xF0, 0x00, 0x00]), None);
}

#[test]
fn test_to_bytes_control_change() {
    let msg = MidiMessageType::ControlChange { channel: 0, controller: 7, value: 100 };
    assert_eq!(msg.to_bytes(), vec![0xB0, 0x07, 0x64]);
}

#[test]
fn test_to_bytes_note_on() {
    let msg = MidiMessageType::NoteOn { channel: 1, note: 60, velocity: 127 };
    assert_eq!(msg.to_bytes(), vec![0x91, 0x3C, 0x7F]);
}

#[test]
fn test_message_round_trip() {
    let messages = vec![
        MidiMessageType::NoteOff { channel: 3, note: 10, velocity: 20 },
        MidiMessageType::NoteOn { channel: 15, note: 127, velocity: 1 },
        MidiMessageType::ControlChange { channel: 2, controller: 64, value: 99 },
        MidiMessageType::ProgramChange { channel: 9, program: 42 },
        MidiMessageType::PitchBend { channel: 0, value: 16383 },
    ];
    for m in messages {
        assert_eq!(MidiMessageType::from_bytes(&m.to_bytes()), Some(m));
    }
}

#[test]
fn test_new_volume_mapping() {
    let mapping =
        ParameterMapping::new_volume(0, 7, "device-1".to_string(), 1, TaperCurve::AudioTaper);

    assert_eq!(mapping.midi_channel, 0);
    assert_eq!(mapping.midi_controller, Some(7));
    assert_eq!(mapping.parameter_type, UcNetParameterType::Volume);
    assert_eq!(mapping.taper_curve, TaperCurve::AudioTaper);
    assert!(!mapping.use_14bit);
}

#[test]
fn test_new_volume_14bit_mapping() {
    let mapping = ParameterMapping::new_volume_14bit(
        0,
        7,
        39,
        "device-1".to_string(),
        1,
        TaperCurve::AudioTaper,
    );

    assert_eq!(mapping.midi_channel, 0);
    assert_eq!(mapping.midi_controller_msb, Some(7));
    assert_eq!(mapping.midi_controller_lsb, Some(39));
    assert!(mapping.use_14bit);
}

#[test]
fn test_new_mute_mapping() {
    let mapping = ParameterMapping::new_mute(0, 60, "device-1".to_string(), 1);

    assert_eq!(mapping.midi_channel, 0);
    assert_eq!(mapping.midi_note, Some(60));
    assert_eq!(mapping.parameter_type, UcNetParameterType::Mute);
}

#[test]
fn test_new_pan_mapping() {
    let mapping = ParameterMapping::new_pan(0, 10, "device-1".to_string(), 1);

    assert_eq!(mapping.midi_channel, 0);
    assert_eq!(mapping.midi_controller, Some(10));
    assert_eq!(mapping.parameter_type, UcNetParameterType::Pan);
    assert_eq!(mapping.taper_curve, TaperCurve::Linear);
}
