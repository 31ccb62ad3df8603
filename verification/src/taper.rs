//! Taper curves and MIDI value conversions in fixed-point arithmetic.
//!
//! Continuous values are micro-units: an `i64` value of [`UNIT`] stands for
//! 1.0. The logarithmic and audio curves are piecewise-linear interpolations
//! over sixteen segments, built from tables of log2(1 + x) and x^2.5 at the
//! segment boundaries; the reverse direction interpolates the same tables
//! inversely, so the two directions invert each other exactly up to
//! quantisation.

use vstd::prelude::*;
use crate::translation::TaperCurve;

verus! {

/// Micro-units that stand for the value 1.0.
pub const UNIT: i64 = 1_000_000;

/// Clamps a micro-unit value into [0, UNIT].
pub open spec fn spec_clamp_unit(x: int) -> int {
    if x < 0 {
        0
    } else if x > 1_000_000 {
        1_000_000
    } else {
        x
    }
}

/// Clamps a micro-unit value into [0, UNIT].
pub fn clamp_unit(x: i64) -> (r: i64)
    ensures
        r == spec_clamp_unit(x as int),
{
    if x < 0 {
        0
    } else if x > 1_000_000 {
        1_000_000
    } else {
        x
    }
}

/// Value of the curve at segment boundary k of 16, in micro-units.
/// The logarithmic table holds log2(1 + k/16), the audio table (k/16)^2.5,
/// both times UNIT and rounded to the nearest micro-unit.
pub open spec fn curve_node(curve: TaperCurve, k: int) -> int {
    match curve {
        TaperCurve::Linear => k * 62_500,
        TaperCurve::Logarithmic => (
            if k <= 0 { 0 }
            else if k == 1 { 87_463 }
            else if k == 2 { 169_925 }
            else if k == 3 { 247_928 }
            else if k == 4 { 321_928 }
            else if k == 5 { 392_317 }
            else if k == 6 { 459_432 }
            else if k == 7 { 523_562 }
            else if k == 8 { 584_963 }
            else if k == 9 { 643_856 }
            else if k == 10 { 700_440 }
            else if k == 11 { 754_888 }
            else if k == 12 { 807_355 }
            else if k == 13 { 857_981 }
            else if k == 14 { 906_891 }
            else if k == 15 { 954_196 }
            else { 1_000_000 }
        ),
        TaperCurve::AudioTaper => (
            if k <= 0 { 0 }
            else if k == 1 { 977 }
            else if k == 2 { 5_524 }
            else if k == 3 { 15_223 }
            else if k == 4 { 31_250 }
            else if k == 5 { 54_592 }
            else if k == 6 { 86_115 }
            else if k == 7 { 126_603 }
            else if k == 8 { 176_777 }
            else if k == 9 { 237_305 }
            else if k == 10 { 308_816 }
            else if k == 11 { 391_906 }
            else if k == 12 { 487_139 }
            else if k == 13 { 595_057 }
            else if k == 14 { 716_177 }
            else if k == 15 { 850_997 }
            else { 1_000_000 }
        ),
    }
}

/// The tables are strictly increasing, stay within [0, UNIT], and no
/// segment is flatter than 977 micro-units per segment.
pub proof fn lemma_curve_nodes(curve: TaperCurve, k: int)
    requires
        0 <= k <= 16,
    ensures
        0 <= curve_node(curve, k) <= 1_000_000,
        k < 16 ==> curve_node(curve, k) < curve_node(curve, k + 1),
        k < 16 ==> curve_node(curve, k + 1) - curve_node(curve, k) >= 977,
        curve_node(curve, 0) == 0,
        curve_node(curve, 16) == 1_000_000,
{
}

/// The tables are monotone between any two boundaries.
pub proof fn lemma_nodes_mono(curve: TaperCurve, a: int, b: int)
    requires
        0 <= a <= b <= 16,
    ensures
        curve_node(curve, a) <= curve_node(curve, b),
    decreases b - a,
{
    if a < b {
        lemma_curve_nodes(curve, b - 1);
        lemma_nodes_mono(curve, a, b - 1);
    }
}

/// The inverse interpolation's walk passes every segment below the one that
/// holds the value.
proof fn lemma_reverse_walk(curve: TaperCurve, yc: int, j: int, k: int)
    requires
        0 <= j <= k < 16,
        curve_node(curve, k) <= yc < curve_node(curve, k + 1),
    ensures
        spec_reverse_from(curve, yc, j) == spec_reverse_from(curve, yc, k),
    decreases k - j,
{
    if j < k {
        lemma_nodes_mono(curve, j + 1, k);
        lemma_reverse_walk(curve, yc, j + 1, k);
    }
}

/// Applying a taper curve and reversing it returns the input to within 64
/// micro-units: the forward and reverse interpolations invert each other
/// exactly, up to division rounding, on every curve.
pub proof fn lemma_taper_round_trip(x: int, curve: TaperCurve)
    ensures
        ({
            let back = spec_reverse_taper(spec_apply_taper(x, curve), curve);
            spec_clamp_unit(x) - 64 <= back <= spec_clamp_unit(x)
        }),
{
    let xc = spec_clamp_unit(x);
    let k = xc / 62_500;
    vstd::arithmetic::div_mod::lemma_fundamental_div_mod(xc, 62_500);
    vstd::arithmetic::div_mod::lemma_mod_division_less_than_divisor(xc, 62_500);
    if k >= 16 {
        assert(xc == 1_000_000);
        assert(spec_apply_taper(x, curve) == 1_000_000);
        assert(spec_reverse_taper(1_000_000, curve) == 1_000_000);
    } else {
        assert(0 <= k < 16);
        lemma_curve_nodes(curve, k);
        lemma_curve_nodes(curve, k + 1);
        let n0 = curve_node(curve, k);
        let n1 = curve_node(curve, k + 1);
        let gap = n1 - n0;
        let dx = xc - k * 62_500;
        assert(0 <= dx < 62_500);
        let q = gap * dx / 62_500;
        vstd::arithmetic::div_mod::lemma_fundamental_div_mod(gap * dx, 62_500);
        vstd::arithmetic::div_mod::lemma_mod_division_less_than_divisor(gap * dx, 62_500);
        // The interpolated value stays inside the segment.
        assert(gap * dx >= 0) by (nonlinear_arith)
            requires gap >= 0 && dx >= 0;
        assert(gap * dx <= gap * 62_499) by (nonlinear_arith)
            requires gap >= 0 && dx <= 62_499;
        assert(62_500 * q <= gap * dx);
        assert(q >= 0) by (nonlinear_arith)
            requires 62_500 * q > gap * dx - 62_500 && gap * dx >= 0;
        assert(q < gap) by (nonlinear_arith)
            requires 62_500 * q <= gap * 62_499 && gap >= 977;
        let y = n0 + q;
        assert(spec_apply_taper(x, curve) == y);
        assert(n0 <= y < n1);
        lemma_nodes_mono(curve, 0, k);
        lemma_nodes_mono(curve, k + 1, 16);
        assert(0 <= y < 1_000_000);
        assert(spec_clamp_unit(y) == y);
        lemma_reverse_walk(curve, y, 0, k);
        let back = k * 62_500 + q * 62_500 / gap;
        assert(spec_reverse_taper(y, curve) == back);
        // q * 62500 / gap lies within [dx - 64, dx].
        assert(q * 62_500 <= gap * dx) by (nonlinear_arith)
            requires 62_500 * q <= gap * dx;
        vstd::arithmetic::div_mod::lemma_div_is_ordered(q * 62_500, gap * dx, gap);
        vstd::arithmetic::div_mod::lemma_div_multiples_vanish(dx, gap);
        assert(gap * dx / gap == dx);
        assert(q * 62_500 / gap <= dx);
        assert(q * 62_500 >= gap * dx - 62_499) by (nonlinear_arith)
            requires 62_500 * q > gap * dx - 62_500;
        assert(gap * dx - 62_499 >= gap * (dx - 64)) by (nonlinear_arith)
            requires gap >= 977;
        vstd::arithmetic::div_mod::lemma_div_is_ordered(gap * (dx - 64), q * 62_500, gap);
        vstd::arithmetic::div_mod::lemma_div_multiples_vanish(dx - 64, gap);
        assert(gap * (dx - 64) / gap == dx - 64);
        assert(q * 62_500 / gap >= dx - 64);
        assert(xc - 64 <= back <= xc);
    }
}

/// Value of the curve at segment boundary k.
fn node(curve: TaperCurve, k: usize) -> (r: i64)
    requires
        k <= 16,
    ensures
        r as int == curve_node(curve, k as int),
{
    match curve {
        TaperCurve::Linear => (k as i64) * 62_500,
        TaperCurve::Logarithmic => (
            match k {
                0 => 0,
                1 => 87_463,
                2 => 169_925,
                3 => 247_928,
                4 => 321_928,
                5 => 392_317,
                6 => 459_432,
                7 => 523_562,
                8 => 584_963,
                9 => 643_856,
                10 => 700_440,
                11 => 754_888,
                12 => 807_355,
                13 => 857_981,
                14 => 906_891,
                15 => 954_196,
                _ => 1_000_000,
            }
        ),
        TaperCurve::AudioTaper => (
            match k {
                0 => 0,
                1 => 977,
                2 => 5_524,
                3 => 15_223,
                4 => 31_250,
                5 => 54_592,
                6 => 86_115,
                7 => 126_603,
                8 => 176_777,
                9 => 237_305,
                10 => 308_816,
                11 => 391_906,
                12 => 487_139,
                13 => 595_057,
                14 => 716_177,
                15 => 850_997,
                _ => 1_000_000,
            }
        ),
    }
}

/// Result of applying the curve to a micro-unit value: the input is clamped
/// to [0, UNIT] and interpolated linearly within its segment of the table.
pub open spec fn spec_apply_taper(x: int, curve: TaperCurve) -> int {
    let xc = spec_clamp_unit(x);
    let k = xc / 62_500;
    if k >= 16 {
        1_000_000
    } else {
        curve_node(curve, k) + (curve_node(curve, k + 1) - curve_node(curve, k)) * (xc - k
            * 62_500) / 62_500
    }
}

/// Applies a taper curve to a micro-unit value in [0, UNIT] (inputs outside
/// that range are clamped first).
pub fn apply_taper(input: i64, curve: TaperCurve) -> (r: i64)
    ensures
        r as int == spec_apply_taper(input as int, curve),
        0 <= r <= 1_000_000,
{
    let xc = clamp_unit(input);
    let k = xc / 62_500;
    if k >= 16 {
        1_000_000
    } else {
        proof {
            lemma_curve_nodes(curve, k as int);
            lemma_curve_nodes(curve, k as int + 1);
            assert(0 <= xc - k * 62_500 < 62_500);
        }
        let n0 = node(curve, k as usize);
        let n1 = node(curve, k as usize + 1);
        let dx = xc - k * 62_500;
        proof {
            assert(0 <= (n1 - n0) * dx <= 62_500_000_000i64) by (nonlinear_arith)
                requires 0 <= n1 - n0 <= 1_000_000 && 0 <= dx < 62_500;
            assert((n1 - n0) * dx / 62_500 <= (n1 - n0)) by (nonlinear_arith)
                requires n1 - n0 >= 0 && 0 <= dx < 62_500;
        }
        n0 + (n1 - n0) * dx / 62_500
    }
}

/// Inverse interpolation: walks the table upward from segment k looking for
/// the segment that holds yc, and interpolates the segment linearly back to
/// the input domain.
pub open spec fn spec_reverse_from(curve: TaperCurve, yc: int, k: int) -> int
    decreases 16 - k,
{
    if k < 0 || k >= 16 {
        1_000_000
    } else if yc < curve_node(curve, k + 1) {
        k * 62_500 + (yc - curve_node(curve, k)) * 62_500 / (curve_node(curve, k + 1)
            - curve_node(curve, k))
    } else {
        spec_reverse_from(curve, yc, k + 1)
    }
}

/// Result of reversing the curve on a micro-unit value: the input is clamped
/// to [0, UNIT] and mapped back through the inverse of the interpolated
/// table.
pub open spec fn spec_reverse_taper(y: int, curve: TaperCurve) -> int {
    let yc = spec_clamp_unit(y);
    if yc >= 1_000_000 {
        1_000_000
    } else {
        spec_reverse_from(curve, yc, 0)
    }
}

/// Reverses a taper curve: the exact inverse of [`apply_taper`]'s
/// interpolation, clamped to [0, UNIT] on both sides.
pub fn reverse_taper(output: i64, curve: TaperCurve) -> (r: i64)
    ensures
        r as int == spec_reverse_taper(output as int, curve),
        0 <= r <= 1_000_000,
{
    let yc = clamp_unit(output);
    if yc >= 1_000_000 {
        return 1_000_000;
    }
    let mut k: usize = 0;
    while k < 16
        invariant
            0 <= k <= 16,
            0 <= yc < 1_000_000,
            yc as int == spec_clamp_unit(output as int),
            curve_node(curve, k as int) <= yc as int,
            spec_reverse_from(curve, yc as int, 0) == spec_reverse_from(curve, yc as int, k as int),
        decreases 16 - k,
    {
        proof {
            lemma_curve_nodes(curve, k as int);
            lemma_curve_nodes(curve, k as int + 1);
        }
        let n0 = node(curve, k);
        let n1 = node(curve, k + 1);
        if yc < n1 {
            let dy = yc - n0;
            proof {
                assert(0 <= dy * 62_500 <= 62_500_000_000i64) by (nonlinear_arith)
                    requires 0 <= dy <= 1_000_000;
                assert(dy * 62_500 / (n1 - n0) < 62_500) by (nonlinear_arith)
                    requires 0 <= dy < n1 - n0 && n1 - n0 > 0;
            }
            let r = (k as i64) * 62_500 + dy * 62_500 / (n1 - n0);
            proof {
                assert(spec_reverse_from(curve, yc as int, k as int) == k as int * 62_500 + (
                yc as int - curve_node(curve, k as int)) * 62_500 / (curve_node(
                    curve,
                    k as int + 1,
                ) - curve_node(curve, k as int)));
            }
            return r;
        }
        k = k + 1;
    }
    proof {
        lemma_curve_nodes(curve, 16);
        assert(false);
    }
    1_000_000
}

/// Converts a 7-bit MIDI value (0-127) to micro-units (values above 127 are
/// treated as 127).
pub open spec fn spec_midi_7bit_to_normalized(value: u8) -> int {
    let v: int = if value > 127 { 127 } else { value as int };
    v * 1_000_000 / 127
}

/// Converts a 7-bit MIDI value (0-127) to micro-units in [0, UNIT].
pub fn midi_7bit_to_normalized(value: u8) -> (r: i64)
    ensures
        r as int == spec_midi_7bit_to_normalized(value),
        0 <= r <= 1_000_000,
{
    let v: i64 = if value > 127 { 127 } else { value as i64 };
    proof {
        assert(0 <= v * 1_000_000 <= 127_000_000) by (nonlinear_arith)
            requires 0 <= v <= 127;
    }
    v * 1_000_000 / 127
}

/// Converts a 14-bit MIDI value, given as its MSB/LSB pair of 7-bit bytes,
/// to micro-units (each byte above 127 is treated as 127).
pub open spec fn spec_midi_14bit_to_normalized(msb: u8, lsb: u8) -> int {
    let m: int = if msb > 127 { 127 } else { msb as int };
    let l: int = if lsb > 127 { 127 } else { lsb as int };
    (m * 128 + l) * 1_000_000 / 16_383
}

/// Converts a 14-bit MIDI value (MSB/LSB pair) to micro-units in [0, UNIT].
pub fn midi_14bit_to_normalized(msb: u8, lsb: u8) -> (r: i64)
    ensures
        r as int == spec_midi_14bit_to_normalized(msb, lsb),
        0 <= r <= 1_000_000,
{
    let m: i64 = if msb > 127 { 127 } else { msb as i64 };
    let l: i64 = if lsb > 127 { 127 } else { lsb as i64 };
    let combined = m * 128 + l;
    proof {
        assert(0 <= combined * 1_000_000 <= 16_383_000_000i64) by (nonlinear_arith)
            requires 0 <= combined <= 16_383;
    }
    combined * 1_000_000 / 16_383
}

/// Converts micro-units back to the nearest 7-bit MIDI value, clamping the
/// input to [0, UNIT] first.
pub open spec fn spec_normalized_to_midi_7bit(value: int) -> int {
    (spec_clamp_unit(value) * 127 + 500_000) / 1_000_000
}

/// Converts micro-units to the nearest 7-bit MIDI value (0-127).
pub fn normalized_to_midi_7bit(value: i64) -> (r: u8)
    ensures
        r as int == spec_normalized_to_midi_7bit(value as int),
        r <= 127,
{
    let xc = clamp_unit(value);
    proof {
        assert(0 <= xc * 127 <= 127_000_000) by (nonlinear_arith)
            requires 0 <= xc <= 1_000_000;
    }
    ((xc * 127 + 500_000) / 1_000_000) as u8
}

/// Converts micro-units back to the nearest 14-bit MIDI value, clamping the
/// input to [0, UNIT] first.
pub open spec fn spec_normalized_to_midi_14bit(value: int) -> (int, int) {
    let mv = (spec_clamp_unit(value) * 16_383 + 500_000) / 1_000_000;
    (mv / 128, mv % 128)
}

/// Converts micro-units to the nearest 14-bit MIDI value, returned as its
/// MSB/LSB pair of 7-bit bytes.
pub fn normalized_to_midi_14bit(value: i64) -> (r: (u8, u8))
    ensures
        (r.0 as int, r.1 as int) == spec_normalized_to_midi_14bit(value as int),
        r.0 <= 127,
        r.1 <= 127,
{
    let xc = clamp_unit(value);
    proof {
        assert(0 <= xc * 16_383 <= 16_383_000_000i64) by (nonlinear_arith)
            requires 0 <= xc <= 1_000_000;
    }
    let mv = (xc * 16_383 + 500_000) / 1_000_000;
    ((mv / 128) as u8, (mv % 128) as u8)
}

/// Converting a 7-bit MIDI value to micro-units and back returns the value
/// unchanged.
pub proof fn lemma_midi_7bit_round_trip(value: u8)
    requires
        value <= 127,
    ensures
        spec_normalized_to_midi_7bit(spec_midi_7bit_to_normalized(value)) == value,
{
    let v = value as int;
    let p = v * 1_000_000;
    let n = p / 127;
    vstd::arithmetic::div_mod::lemma_fundamental_div_mod(p, 127);
    vstd::arithmetic::div_mod::lemma_mod_division_less_than_divisor(p, 127);
    assert(p - 126 <= 127 * n <= p);
    assert(0 <= n <= 1_000_000) by (nonlinear_arith)
        requires 0 <= v <= 127 && p == v * 1_000_000 && p - 126 <= 127 * n <= p;
    let s = n * 127 + 500_000 - p;
    assert(0 <= s < 1_000_000);
    assert(n * 127 + 500_000 == 1_000_000 * v + s);
    vstd::arithmetic::div_mod::lemma_div_multiples_vanish_fancy(v, s, 1_000_000);
    assert((1_000_000 * v + s) / 1_000_000 == v);
}

/// Converting a 14-bit MIDI value to micro-units and back returns both bytes
/// unchanged.
pub proof fn lemma_midi_14bit_round_trip(msb: u8, lsb: u8)
    requires
        msb <= 127,
        lsb <= 127,
    ensures
        spec_normalized_to_midi_14bit(spec_midi_14bit_to_normalized(msb, lsb)) == (
            msb as int,
            lsb as int,
        ),
{
    let c = msb as int * 128 + lsb as int;
    let p = c * 1_000_000;
    let n = p / 16_383;
    vstd::arithmetic::div_mod::lemma_fundamental_div_mod(p, 16_383);
    vstd::arithmetic::div_mod::lemma_mod_division_less_than_divisor(p, 16_383);
    assert(p - 16_382 <= 16_383 * n <= p);
    assert(0 <= n <= 1_000_000) by (nonlinear_arith)
        requires 0 <= c <= 16_383 && p == c * 1_000_000 && p - 16_382 <= 16_383 * n <= p;
    let s = n * 16_383 + 500_000 - p;
    assert(0 <= s < 1_000_000);
    assert(n * 16_383 + 500_000 == 1_000_000 * c + s);
    vstd::arithmetic::div_mod::lemma_div_multiples_vanish_fancy(c, s, 1_000_000);
    let mv = (n * 16_383 + 500_000) / 1_000_000;
    assert(mv == c);
    assert(mv == 128 * msb as int + lsb as int);
    vstd::arithmetic::div_mod::lemma_div_multiples_vanish_fancy(msb as int, lsb as int, 128);
    vstd::arithmetic::div_mod::lemma_fundamental_div_mod(mv, 128);
    vstd::arithmetic::div_mod::lemma_mod_division_less_than_divisor(mv, 128);
    assert(mv / 128 == msb as int);
    assert(mv % 128 == lsb as int) by (nonlinear_arith)
        requires
            mv == 128 * msb as int + lsb as int && 0 <= lsb < 128 && mv == 128 * (mv / 128) + mv
                % 128 && 0 <= mv % 128 < 128 && mv / 128 == msb as int;
}

/// Clamps a pan value in micro-units into [-UNIT, UNIT].
pub open spec fn spec_clamp_pan(x: int) -> int {
    if x < -1_000_000 {
        -1_000_000
    } else if x > 1_000_000 {
        1_000_000
    } else {
        x
    }
}

/// Clamps a pan value in micro-units into [-UNIT, UNIT].
pub fn clamp_pan(x: i64) -> (r: i64)
    ensures
        r == spec_clamp_pan(x as int),
{
    if x < -1_000_000 {
        -1_000_000
    } else if x > 1_000_000 {
        1_000_000
    } else {
        x
    }
}

/// A pan value in micro-units mapped back to the [0, UNIT] control range:
/// the inverse of the `2x - 1` remap on the forward path.
pub open spec fn spec_pan_to_normalized(v: int) -> int {
    (spec_clamp_pan(v) + 1_000_000) / 2
}

/// Maps a pan value in micro-units back to the [0, UNIT] control range.
pub fn pan_to_normalized(v: i64) -> (r: i64)
    ensures
        r as int == spec_pan_to_normalized(v as int),
        0 <= r <= 1_000_000,
{
    (clamp_pan(v) + 1_000_000) / 2
}

} // verus!
