//! Tests of device categorisation, manufacturer extraction and the device
//! cache.

use faderbridge::device_db::{DeviceCategory, DeviceDatabase};
use faderbridge::enumeration::{DeviceEnumerator, MidiDeviceManager, MidirEnumerator};
use faderbridge::errors::MidiResult;
use faderbridge::midi::{MidiConnectionStatus, MidiDevice, MidiDeviceType};

#[test]
fn test_faderport_categorization() {
    let db = DeviceDatabase::new();
    assert_eq!(
        db.categorize_device("PreSonus FP2", Some(0x194f), Some(0x1800)),
        DeviceCategory::Controller
    );
}

#[test]
fn test_quantum_categorization() {
    let db = DeviceDatabase::new();
    assert_eq!(
        db.categorize_device("Quantum HD 2 Control", Some(0x194f), Some(0x8187)),
        DeviceCategory::AudioInterface
    );
}

#[test]
fn test_ucnet_midi_categorization() {
    let db = DeviceDatabase::new();
    assert_eq!(
        db.categorize_device("UCNET MIDI StudioLive 32SC Main", None, None),
        DeviceCategory::Controller
    );
}

#[test]
fn test_heuristic_fallback() {
    let db = DeviceDatabase::new();
    assert_eq!(
        db.categorize_device("UCNET MIDI Unknown Device", None, None),
        DeviceCategory::Controller
    );
}

#[test]
fn test_tone_master_pro_categorization() {
    let db = DeviceDatabase::new();
    assert_eq!(
        db.categorize_device("Tone Master Pro", None, None),
        DeviceCategory::AudioInterface
    );
}

#[test]
fn test_x_touch_categorization() {
    let db = DeviceDatabase::new();
    assert_eq!(
        db.categorize_device("Behringer X-Touch", None, None),
        DeviceCategory::Controller
    );
}

#[test]
fn test_conservative_default() {
    let db = DeviceDatabase::new();
    assert_eq!(
        db.categorize_device("Unknown MIDI Device", None, None),
        DeviceCategory::AudioInterface
    );
}

struct MockEnumerator {
    inputs: Vec<MidiDevice>,
    outputs: Vec<MidiDevice>,
}

impl DeviceEnumerator for MockEnumerator {
    fn discover_inputs(&self) -> MidiResult<Vec<MidiDevice>> {
        Ok(self.inputs.clone())
    }

    fn discover_outputs(&self) -> MidiResult<Vec<MidiDevice>> {
        Ok(self.outputs.clone())
    }
}

#[test]
fn test_discover_devices() {
    let mock = MockEnumerator {
        inputs: vec![MidiDevice {
            id: "input:0:Test Input".to_string(),
            name: "Test Input".to_string(),
            manufacturer: Some("Test".to_string()),
            device_type: MidiDeviceType::Input,
            port_number: 0,
            status: MidiConnectionStatus::Available,
        }],
        outputs: vec![MidiDevice {
            id: "output:0:Test Output".to_string(),
            name: "Test Output".to_string(),
            manufacturer: Some("Test".to_string()),
            device_type: MidiDeviceType::Output,
            port_number: 0,
            status: MidiConnectionStatus::Available,
        }],
    };

    let mut manager = MidiDeviceManager::with_enumerator(mock);
    let devices = manager.discover_devices().unwrap();

    assert_eq!(devices.len(), 2);
    assert_eq!(devices[0].device_type, MidiDeviceType::Input);
    assert_eq!(devices[1].device_type, MidiDeviceType::Output);
}

#[test]
fn test_update_device_status() {
    let mock = MockEnumerator {
        inputs: vec![MidiDevice {
            id: "input:0:Test".to_string(),
            name: "Test".to_string(),
            manufacturer: None,
            device_type: MidiDeviceType::Input,
            port_number: 0,
            status: MidiConnectionStatus::Available,
        }],
        outputs: vec![],
    };

    let mut manager = MidiDeviceManager::with_enumerator(mock);
    manager.discover_devices().unwrap();

    manager.update_device_status("input:0:Test", MidiConnectionStatus::Connected).unwrap();

    let device = manager.get_device("input:0:Test").unwrap().unwrap();
    assert_eq!(device.status, MidiConnectionStatus::Connected);
}

#[test]
fn test_update_device_status_missing() {
    let mock = MockEnumerator { inputs: vec![], outputs: vec![] };
    let mut manager = MidiDeviceManager::with_enumerator(mock);
    assert!(manager.update_device_status("no-such-id", MidiConnectionStatus::Connected).is_err());
}

#[test]
fn test_extract_manufacturer() {
    assert_eq!(
        MidirEnumerator::extract_manufacturer("PreSonus FaderPort"),
        Some("PreSonus".to_string())
    );
    assert_eq!(
        MidirEnumerator::extract_manufacturer("Behringer X-Touch"),
        Some("Behringer".to_string())
    );
    // With no known prefix the first word stands in.
    assert_eq!(
        MidirEnumerator::extract_manufacturer("Oberheim Matrix"),
        Some("Oberheim".to_string())
    );
    assert_eq!(MidirEnumerator::extract_manufacturer("   "), None);
}

#[test]
fn test_generate_device_id() {
    let id = MidirEnumerator::generate_device_id(MidiDeviceType::Input, 3, "Test Device");
    assert_eq!(id, "Input:3:Test Device");
}

#[test]
fn test_should_exclude_from_controllers() {
    let e = MidirEnumerator::new();
    assert!(e.should_exclude_from_controllers("Quantum HD 2"));
    assert!(!e.should_exclude_from_controllers("PreSonus FP2"));
}
