//! Builders for UCNet parameter key strings such as `line.ch1.volume`.

use vstd::prelude::*;
use vstd::string::StringExecFns;

verus! {

/// The decimal digit character of a value below ten.
pub open spec fn spec_digit_char(d: int) -> char {
    if d == 0 {
        '0'
    } else if d == 1 {
        '1'
    } else if d == 2 {
        '2'
    } else if d == 3 {
        '3'
    } else if d == 4 {
        '4'
    } else if d == 5 {
        '5'
    } else if d == 6 {
        '6'
    } else if d == 7 {
        '7'
    } else if d == 8 {
        '8'
    } else {
        '9'
    }
}

/// The decimal spelling of a non-negative number.
pub open spec fn spec_decimal(n: int) -> Seq<char>
    decreases n when n >= 0
{
    if n < 10 {
        seq![spec_digit_char(n)]
    } else {
        spec_decimal(n / 10).push(spec_digit_char(n % 10))
    }
}

/// The one-character string of a decimal digit.
fn digit_str(d: u32) -> (r: &'static str)
    requires
        d < 10,
    ensures
        r@ == seq![spec_digit_char(d as int)],
{
    proof {
        reveal_strlit("0");
        reveal_strlit("1");
        reveal_strlit("2");
        reveal_strlit("3");
        reveal_strlit("4");
        reveal_strlit("5");
        reveal_strlit("6");
        reveal_strlit("7");
        reveal_strlit("8");
        reveal_strlit("9");
    }
    let r = match d {
        0 => "0",
        1 => "1",
        2 => "2",
        3 => "3",
        4 => "4",
        5 => "5",
        6 => "6",
        7 => "7",
        8 => "8",
        _ => "9",
    };
    proof {
        assert(r@ =~= seq![spec_digit_char(d as int)]);
    }
    r
}

/// The decimal spelling of a number.
pub fn decimal_string(n: u32) -> (r: String)
    ensures
        r@ == spec_decimal(n as int),
    decreases n,
{
    if n < 10 {
        String::from_str(digit_str(n))
    } else {
        let high = decimal_string(n / 10);
        high.concat(digit_str(n % 10))
    }
}

/// The key of a line channel's volume: `line.ch{N}.volume`.
pub fn channel_volume(channel: u8) -> (r: String)
    ensures
        r@ == "line.ch"@ + spec_decimal(channel as int) + ".volume"@,
{
    String::from_str("line.ch").concat(decimal_string(channel as u32).as_str()).concat(".volume")
}

/// The key of a line channel's mute: `line.ch{N}.mute`.
pub fn channel_mute(channel: u8) -> (r: String)
    ensures
        r@ == "line.ch"@ + spec_decimal(channel as int) + ".mute"@,
{
    String::from_str("line.ch").concat(decimal_string(channel as u32).as_str()).concat(".mute")
}

/// The key of a line channel's pan: `line.ch{N}.pan`.
pub fn channel_pan(channel: u8) -> (r: String)
    ensures
        r@ == "line.ch"@ + spec_decimal(channel as int) + ".pan"@,
{
    String::from_str("line.ch").concat(decimal_string(channel as u32).as_str()).concat(".pan")
}

/// The key of a line channel's solo: `line.ch{N}.solo`.
pub fn channel_solo(channel: u8) -> (r: String)
    ensures
        r@ == "line.ch"@ + spec_decimal(channel as int) + ".solo"@,
{
    String::from_str("line.ch").concat(decimal_string(channel as u32).as_str()).concat(".solo")
}

/// The key of an aux send level: `line.ch{N}.aux{M}.level`.
pub fn aux_send(channel: u8, aux: u8) -> (r: String)
    ensures
        r@ == "line.ch"@ + spec_decimal(channel as int) + ".aux"@ + spec_decimal(aux as int)
            + ".level"@,
{
    String::from_str("line.ch").concat(decimal_string(channel as u32).as_str()).concat(
        ".aux",
    ).concat(decimal_string(aux as u32).as_str()).concat(".level")
}

/// The key of the main mix volume.
pub fn main_volume() -> (r: String)
    ensures
        r@ == "main.ch1.volume"@,
{
    String::from_str("main.ch1.volume")
}

/// The key of the main mix mute.
pub fn main_mute() -> (r: String)
    ensures
        r@ == "main.ch1.mute"@,
{
    String::from_str("main.ch1.mute")
}

/// The key of an FX return level: `fxrtn.ch{N}.volume`.
pub fn fx_return(fx: u8) -> (r: String)
    ensures
        r@ == "fxrtn.ch"@ + spec_decimal(fx as int) + ".volume"@,
{
    String::from_str("fxrtn.ch").concat(decimal_string(fx as u32).as_str()).concat(".volume")
}

/// The key of a subgroup volume: `sub.ch{N}.volume`.
pub fn subgroup_volume(subgroup: u8) -> (r: String)
    ensures
        r@ == "sub.ch"@ + spec_decimal(subgroup as int) + ".volume"@,
{
    String::from_str("sub.ch").concat(decimal_string(subgroup as u32).as_str()).concat(".volume")
}

} // verus!
