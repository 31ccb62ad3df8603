//! Tests of the fixed-point taper curves and MIDI value conversions.
//! Micro-units: 1_000_000 stands for 1.0, so a tolerance of 0.001 is 1000.

use faderbridge::taper::{
    apply_taper, midi_14bit_to_normalized, midi_7bit_to_normalized, normalized_to_midi_14bit,
    normalized_to_midi_7bit, reverse_taper, UNIT,
};
use faderbridge::translation::TaperCurve;

#[test]
fn test_linear_taper() {
    assert_eq!(apply_taper(0, TaperCurve::Linear), 0);
    assert_eq!(apply_taper(500_000, TaperCurve::Linear), 500_000);
    assert_eq!(apply_taper(1_000_000, TaperCurve::Linear), 1_000_000);
}

#[test]
fn test_logarithmic_taper() {
    let result_0 = apply_taper(0, TaperCurve::Logarithmic);
    let result_half = apply_taper(500_000, TaperCurve::Logarithmic);
    let result_1 = apply_taper(1_000_000, TaperCurve::Logarithmic);

    assert_eq!(result_0, 0);
    assert!(result_half > 0 && result_half < 1_000_000);
    assert_eq!(result_1, 1_000_000);

    // log2(1.5) is about 0.585, so above the linear midpoint.
    assert!(result_half > 500_000);
    assert!((result_half - 585_000).abs() < 10_000);
}

#[test]
fn test_audio_taper() {
    let result_0 = apply_taper(0, TaperCurve::AudioTaper);
    let result_half = apply_taper(500_000, TaperCurve::AudioTaper);
    let result_1 = apply_taper(1_000_000, TaperCurve::AudioTaper);

    assert_eq!(result_0, 0);
    assert!(result_half > 0 && result_half < 1_000_000);
    assert_eq!(result_1, 1_000_000);

    // The audio taper sits below linear in the middle: 0.5^2.5 is about 0.177.
    assert!(result_half < 500_000);
    assert!((result_half - 177_000).abs() < 10_000);
}

#[test]
fn test_taper_clamping() {
    assert_eq!(apply_taper(-500_000, TaperCurve::Linear), 0);
    assert_eq!(apply_taper(1_500_000, TaperCurve::Linear), 1_000_000);
}

#[test]
fn test_midi_7bit_conversion() {
    assert_eq!(midi_7bit_to_normalized(0), 0);
    assert_eq!(midi_7bit_to_normalized(127), 1_000_000);
    assert!((midi_7bit_to_normalized(64) - 504_000).abs() < 10_000);
}

#[test]
fn test_midi_14bit_conversion() {
    assert_eq!(midi_14bit_to_normalized(0, 0), 0);
    assert_eq!(midi_14bit_to_normalized(127, 127), 1_000_000);

    let mid_value = midi_14bit_to_normalized(64, 0);
    assert!((mid_value - 500_000).abs() < 10_000);
}

#[test]
fn test_normalized_to_midi_7bit() {
    assert_eq!(normalized_to_midi_7bit(0), 0);
    assert_eq!(normalized_to_midi_7bit(1_000_000), 127);
    assert_eq!(normalized_to_midi_7bit(500_000), 64);

    assert_eq!(normalized_to_midi_7bit(-500_000), 0);
    assert_eq!(normalized_to_midi_7bit(1_500_000), 127);
}

#[test]
fn test_normalized_to_midi_14bit() {
    assert_eq!(normalized_to_midi_14bit(0), (0, 0));
    assert_eq!(normalized_to_midi_14bit(1_000_000), (127, 127));

    let (msb, lsb) = normalized_to_midi_14bit(500_000);
    assert_eq!(msb, 64);
    assert_eq!(lsb, 0);
}

#[test]
fn test_round_trip_7bit() {
    for value in 0..=127u8 {
        let normalized = midi_7bit_to_normalized(value);
        let back = normalized_to_midi_7bit(normalized);
        assert_eq!(back, value);
    }
}

#[test]
fn test_round_trip_14bit() {
    let test_values = vec![(0u8, 0u8), (64, 0), (127, 127), (100, 50)];

    for (msb, lsb) in test_values {
        let normalized = midi_14bit_to_normalized(msb, lsb);
        let (back_msb, back_lsb) = normalized_to_midi_14bit(normalized);
        assert!((back_msb as i16 - msb as i16).abs() <= 1);
        assert!((back_lsb as i16 - lsb as i16).abs() <= 1);
    }
}

#[test]
fn test_reverse_linear_taper() {
    assert_eq!(reverse_taper(0, TaperCurve::Linear), 0);
    assert_eq!(reverse_taper(500_000, TaperCurve::Linear), 500_000);
    assert_eq!(reverse_taper(1_000_000, TaperCurve::Linear), 1_000_000);
}

#[test]
fn test_reverse_audio_taper() {
    let test_values = vec![0i64, 250_000, 500_000, 750_000, 1_000_000];

    for input in test_values {
        let tapered = apply_taper(input, TaperCurve::AudioTaper);
        let reversed = reverse_taper(tapered, TaperCurve::AudioTaper);
        assert!(
            (reversed - input).abs() < 1000,
            "input {}: tapered={}, reversed={}",
            input,
            tapered,
            reversed
        );
    }
}

#[test]
fn test_reverse_logarithmic_taper() {
    let test_values = vec![0i64, 250_000, 500_000, 750_000, 1_000_000];

    for input in test_values {
        let tapered = apply_taper(input, TaperCurve::Logarithmic);
        let reversed = reverse_taper(tapered, TaperCurve::Logarithmic);
        assert!(
            (reversed - input).abs() < 1000,
            "input {}: tapered={}, reversed={}",
            input,
            tapered,
            reversed
        );
    }
}

#[test]
fn test_reverse_linear_round_trip() {
    let test_values = vec![0i64, 250_000, 500_000, 750_000, 1_000_000];

    for input in test_values {
        let tapered = apply_taper(input, TaperCurve::Linear);
        let reversed = reverse_taper(tapered, TaperCurve::Linear);
        assert!((reversed - input).abs() < 1000);
    }
}

#[test]
fn test_reverse_taper_clamping() {
    assert_eq!(reverse_taper(-500_000, TaperCurve::Linear), 0);
    assert_eq!(reverse_taper(1_500_000, TaperCurve::Linear), 1_000_000);
    assert_eq!(reverse_taper(-500_000, TaperCurve::AudioTaper), 0);
    assert_eq!(reverse_taper(1_500_000, TaperCurve::AudioTaper), 1_000_000);
}

#[test]
fn test_unit_constant() {
    assert_eq!(UNIT, 1_000_000);
}
