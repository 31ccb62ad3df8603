//! Tests of the MCU protocol parsing and feedback building.

use faderbridge::mcu::{McuControl, McuMessage, McuProtocol, VPotLedMode};

#[test]
fn test_parse_fader() {
    let mut mcu = McuProtocol::new();

    // Fader on channel 0, centre position.
    let msg = mcu.parse_midi(0xE0, 0x00, 0x40);
    assert!(matches!(msg, Some(McuMessage::Fader(_))));

    if let Some(McuMessage::Fader(pos)) = msg {
        assert_eq!(pos.channel, 0);
        assert_eq!(pos.position, 8192);
    }
}

#[test]
fn test_parse_vpot() {
    let mut mcu = McuProtocol::new();

    // V-Pot 0, one detent clockwise.
    let msg = mcu.parse_midi(0xB0, 16, 0x01);
    assert!(matches!(msg, Some(McuMessage::VPot { .. })));

    if let Some(McuMessage::VPot { channel, delta }) = msg {
        assert_eq!(channel, 0);
        assert_eq!(delta, 1);
    }
}

#[test]
fn test_parse_vpot_counterclockwise() {
    let mut mcu = McuProtocol::new();

    let msg = mcu.parse_midi(0xB0, 17, 0x41);
    if let Some(McuMessage::VPot { channel, delta }) = msg {
        assert_eq!(channel, 1);
        assert_eq!(delta, -1);
    } else {
        panic!("Expected VPot message");
    }
}

#[test]
fn test_parse_button() {
    let mut mcu = McuProtocol::new();

    // Mute button 0 pressed.
    let msg = mcu.parse_midi(0x90, 16, 0x7F);
    assert!(matches!(msg, Some(McuMessage::Button { .. })));

    if let Some(McuMessage::Button { note, pressed }) = msg {
        assert_eq!(note, 16);
        assert!(pressed);
    }
}

#[test]
fn test_parse_not_mcu() {
    let mut mcu = McuProtocol::new();
    assert!(mcu.parse_midi(0xC0, 5, 0).is_none());
    assert!(mcu.parse_midi(0xB0, 99, 0).is_none());
}

#[test]
fn test_fader_conversion() {
    assert_eq!(McuProtocol::fader_to_normalized(0), 0);
    assert_eq!(McuProtocol::fader_to_normalized(16383), 1_000_000);
    assert!((McuProtocol::fader_to_normalized(8192) - 500_000).abs() < 10_000);

    assert_eq!(McuProtocol::normalized_to_fader(0), 0);
    assert_eq!(McuProtocol::normalized_to_fader(1_000_000), 16383);
    assert!((McuProtocol::normalized_to_fader(500_000) as i32 - 8192).abs() < 10);
}

#[test]
fn test_create_fader_update() {
    let mcu = McuProtocol::new();
    let msg = mcu.create_fader_update(0, 8192);
    assert_eq!(msg, vec![0xE0, 0x00, 0x40]);
}

#[test]
fn test_create_vpot_led_update() {
    let mcu = McuProtocol::new();
    let msg = mcu.create_vpot_led_update(0, VPotLedMode::BoostCut, 6);
    assert_eq!(msg, vec![0xB0, 48, 0x16]);
}

#[test]
fn test_create_button_led_update() {
    let mcu = McuProtocol::new();
    assert_eq!(mcu.create_button_led_update(94, true), vec![0x90, 94, 0x7F]);
    assert_eq!(mcu.create_button_led_update(94, false), vec![0x90, 94, 0x00]);
}

#[test]
fn test_button_to_control() {
    assert_eq!(McuProtocol::button_to_control(3), Some(McuControl::RecordReady(3)));
    assert_eq!(McuProtocol::button_to_control(10), Some(McuControl::Solo(2)));
    assert_eq!(McuProtocol::button_to_control(16), Some(McuControl::Mute(0)));
    assert_eq!(McuProtocol::button_to_control(31), Some(McuControl::Select(7)));
    assert_eq!(McuProtocol::button_to_control(64), None);
}
