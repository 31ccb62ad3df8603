//! Tests of the shadow state: value comparison, staleness, and per-device
//! clearing. The clock is explicit milliseconds, so staleness needs no
//! sleeping.

use faderbridge::shadow::{ParameterId, ShadowState};
use faderbridge::translation::{UcNetParameterType, UcNetParameterValue};

#[test]
fn test_shadow_state_update_and_get() {
    let mut shadow = ShadowState::default();
    let id = ParameterId::new("device-1".to_string(), 1, UcNetParameterType::Volume);
    let value = UcNetParameterValue::Float(500_000);

    shadow.update(id.clone(), value, 0);

    assert_eq!(shadow.get(&id, 0), Some(value));
    assert_eq!(shadow.len(), 1);
}

#[test]
fn test_has_changed_no_shadow() {
    let shadow = ShadowState::default();
    let id = ParameterId::new("device-1".to_string(), 1, UcNetParameterType::Volume);
    let value = UcNetParameterValue::Float(500_000);

    assert!(shadow.has_changed(&id, &value, 0));
}

#[test]
fn test_has_changed_same_value() {
    let mut shadow = ShadowState::default();
    let id = ParameterId::new("device-1".to_string(), 1, UcNetParameterType::Volume);
    let value = UcNetParameterValue::Float(500_000);

    shadow.update(id.clone(), value, 0);

    assert!(!shadow.has_changed(&id, &value, 0));
}

#[test]
fn test_has_changed_different_value() {
    let mut shadow = ShadowState::default();
    let id = ParameterId::new("device-1".to_string(), 1, UcNetParameterType::Volume);
    let value1 = UcNetParameterValue::Float(500_000);
    let value2 = UcNetParameterValue::Float(700_000);

    shadow.update(id.clone(), value1, 0);

    assert!(shadow.has_changed(&id, &value2, 0));
}

#[test]
fn test_shadow_suppression_cycle() {
    // After an update, the same value is suppressed, a far one is not, and
    // clearing the device lets the same value through again.
    let mut shadow = ShadowState::default();
    let id = ParameterId::new("device-1".to_string(), 1, UcNetParameterType::Volume);

    shadow.update(id.clone(), UcNetParameterValue::Float(500_000), 0);
    assert!(!shadow.has_changed(&id, &UcNetParameterValue::Float(500_000), 0));
    assert!(shadow.has_changed(&id, &UcNetParameterValue::Float(700_000), 0));

    shadow.clear_device("device-1");
    assert!(shadow.has_changed(&id, &UcNetParameterValue::Float(500_000), 0));
}

#[test]
fn test_float_tolerance() {
    // Tolerance 0.01 in micro-units.
    let mut shadow = ShadowState::new(10_000, 5000);
    let id = ParameterId::new("device-1".to_string(), 1, UcNetParameterType::Volume);
    let value1 = UcNetParameterValue::Float(500_000);
    let value2 = UcNetParameterValue::Float(505_000);
    let value3 = UcNetParameterValue::Float(520_000);

    shadow.update(id.clone(), value1, 0);

    assert!(!shadow.has_changed(&id, &value2, 0));
    assert!(shadow.has_changed(&id, &value3, 0));
}

#[test]
fn test_bool_comparison() {
    let mut shadow = ShadowState::default();
    let id = ParameterId::new("device-1".to_string(), 1, UcNetParameterType::Mute);
    let value1 = UcNetParameterValue::Bool(true);
    let value2 = UcNetParameterValue::Bool(false);

    shadow.update(id.clone(), value1, 0);

    assert!(!shadow.has_changed(&id, &value1, 0));
    assert!(shadow.has_changed(&id, &value2, 0));
}

#[test]
fn test_cross_type_comparison() {
    let mut shadow = ShadowState::default();
    let id = ParameterId::new("device-1".to_string(), 1, UcNetParameterType::Mute);

    shadow.update(id.clone(), UcNetParameterValue::Bool(false), 0);
    // A value of the other kind never counts as equal.
    assert!(shadow.has_changed(&id, &UcNetParameterValue::Float(0), 0));
}

#[test]
fn test_clear() {
    let mut shadow = ShadowState::default();
    let id = ParameterId::new("device-1".to_string(), 1, UcNetParameterType::Volume);
    let value = UcNetParameterValue::Float(500_000);

    shadow.update(id.clone(), value, 0);
    assert_eq!(shadow.len(), 1);

    shadow.clear();
    assert_eq!(shadow.len(), 0);
    assert!(shadow.is_empty());
}

#[test]
fn test_clear_device() {
    let mut shadow = ShadowState::default();

    let id1 = ParameterId::new("device-1".to_string(), 1, UcNetParameterType::Volume);
    let id2 = ParameterId::new("device-2".to_string(), 1, UcNetParameterType::Volume);

    shadow.update(id1.clone(), UcNetParameterValue::Float(500_000), 0);
    shadow.update(id2.clone(), UcNetParameterValue::Float(700_000), 0);

    assert_eq!(shadow.len(), 2);

    shadow.clear_device("device-1");

    assert_eq!(shadow.len(), 1);
    assert!(shadow.get(&id1, 0).is_none());
    assert!(shadow.get(&id2, 0).is_some());
}

#[test]
fn test_stale_entries() {
    let mut shadow = ShadowState::new(1000, 100);
    let id = ParameterId::new("device-1".to_string(), 1, UcNetParameterType::Volume);
    let value = UcNetParameterValue::Float(500_000);

    shadow.update(id.clone(), value, 0);
    assert_eq!(shadow.get(&id, 50), Some(value));

    // Past the maximum age the entry reads as gone and as changed.
    assert!(shadow.get(&id, 150).is_none());
    assert!(shadow.has_changed(&id, &value, 150));
}

#[test]
fn test_cleanup_stale() {
    let mut shadow = ShadowState::new(1000, 100);
    let id = ParameterId::new("device-1".to_string(), 1, UcNetParameterType::Volume);
    let value = UcNetParameterValue::Float(500_000);

    shadow.update(id.clone(), value, 0);
    assert_eq!(shadow.len(), 1);

    shadow.cleanup_stale(150);
    assert_eq!(shadow.len(), 0);
}

#[test]
fn test_multiple_parameters() {
    let mut shadow = ShadowState::default();

    let id1 = ParameterId::new("device-1".to_string(), 1, UcNetParameterType::Volume);
    let id2 = ParameterId::new("device-1".to_string(), 1, UcNetParameterType::Pan);
    let id3 = ParameterId::new("device-1".to_string(), 2, UcNetParameterType::Volume);

    shadow.update(id1.clone(), UcNetParameterValue::Float(500_000), 0);
    shadow.update(id2.clone(), UcNetParameterValue::Float(0), 0);
    shadow.update(id3.clone(), UcNetParameterValue::Float(700_000), 0);

    assert_eq!(shadow.len(), 3);
    assert!(shadow.get(&id1, 0).is_some());
    assert!(shadow.get(&id2, 0).is_some());
    assert!(shadow.get(&id3, 0).is_some());
}
