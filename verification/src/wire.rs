//! The published message wire format.
//!
//! A reading is serialized as a JSON object with exactly the keys
//! `temperature`, `RH` and `battery`. Temperature and humidity are rendered
//! as strings with exactly one decimal place, rounding the stored hundredths
//! half away from zero, so the output never depends on binary floating-point
//! rounding or locale. This shape is the wire contract consumers depend on.

use crate::decode::DecodedReading;
use vstd::prelude::*;

verus! {

/// The character for a single decimal digit.
pub open spec fn spec_digit_char(d: int) -> char {
    (d + 48) as char
}

/// Decimal digits of a non-negative integer, most significant first.
pub open spec fn spec_digits(n: int) -> Seq<char>
    recommends
        n >= 0,
    decreases n,
{
    if n < 10 {
        seq![spec_digit_char(n)]
    } else {
        spec_digits(n / 10).push(spec_digit_char(n % 10))
    }
}

/// One-decimal rendering of a non-negative number of hundredths: the
/// hundredths are rounded half up to tenths, then written as integer part,
/// a dot, and one digit of tenths.
pub open spec fn spec_magnitude_one_decimal(m: int) -> Seq<char>
    recommends
        m >= 0,
{
    let tenths = (m + 5) / 10;
    spec_digits(tenths / 10) + seq!['.'] + seq![spec_digit_char(tenths % 10)]
}

/// One-decimal rendering of a signed number of hundredths: a leading minus
/// sign for negative inputs, then the rendering of the magnitude, rounded
/// half away from zero.
pub open spec fn spec_one_decimal(centi: int) -> Seq<char> {
    if centi < 0 {
        seq!['-'] + spec_magnitude_one_decimal(-centi)
    } else {
        spec_magnitude_one_decimal(centi)
    }
}

/// The exact character sequence published for a reading.
pub open spec fn spec_serialize_reading(r: DecodedReading) -> Seq<char> {
    "{\"temperature\":\""@ + spec_one_decimal(r.temperature_centi as int) + "\",\"RH\":\""@
        + spec_one_decimal(r.humidity_centi as int) + "\",\"battery\":"@ + spec_digits(
        r.battery as int,
    ) + "}"@
}

/// Relies on std's String::push: appends the given character to the end of
/// the string.
pub assume_specification[ String::push ](s: &mut String, c: char)
    ensures
        final(s)@ == old(s)@.push(c),
;

/// The character for one decimal digit.
fn digit_char(d: u8) -> (c: char)
    requires
        d < 10,
    ensures
        c == spec_digit_char(d as int),
{
    (d + 48) as char
}

/// Appends the decimal digits of `n` to `out`.
fn push_digits(n: u64, out: &mut String)
    ensures
        final(out)@ == old(out)@ + spec_digits(n as int),
    decreases n,
{
    if n < 10 {
        out.push(digit_char(n as u8));
        assert(out@ =~= old(out)@ + spec_digits(n as int));
    } else {
        push_digits(n / 10, out);
        out.push(digit_char((n % 10) as u8));
        assert(out@ =~= old(out)@ + spec_digits(n as int));
    }
}

/// Appends the one-decimal rendering of a signed count of hundredths.
fn push_one_decimal(centi: i32, out: &mut String)
    ensures
        final(out)@ == old(out)@ + spec_one_decimal(centi as int),
{
    let m: u64 = if centi < 0 {
        out.append("-");
        (-(centi as i64)) as u64
    } else {
        centi as u64
    };
    let tenths: u64 = (m + 5) / 10;
    push_digits(tenths / 10, out);
    out.append(".");
    out.push(digit_char((tenths % 10) as u8));
    proof {
        reveal_strlit("-");
        reveal_strlit(".");
        assert("-"@ =~= seq!['-']);
        assert("."@ =~= seq!['.']);
        assert(out@ =~= old(out)@ + spec_one_decimal(centi as int));
    }
}

/// Serializes a reading into the published JSON wire format.
pub fn serialize_reading(r: &DecodedReading) -> (s: String)
    ensures
        s@ == spec_serialize_reading(*r),
{
    let mut out = String::new();
    out.append("{\"temperature\":\"");
    push_one_decimal(r.temperature_centi, &mut out);
    out.append("\",\"RH\":\"");
    push_one_decimal(r.humidity_centi, &mut out);
    out.append("\",\"battery\":");
    push_digits(r.battery as u64, &mut out);
    out.append("}");
    assert(out@ =~= spec_serialize_reading(*r));
    out
}

} // verus!
