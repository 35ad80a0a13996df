//! Decoding of vendor-specific advertisement payloads.
//!
//! Two vendor formats are recognized. Format A carries two's-complement
//! little-endian fields scaled in hundredths; Format B packs a sign-magnitude
//! 24-bit value whose quotient by 1000 is the temperature in tenths and whose
//! remainder is the humidity in tenths. Readings carry both quantities as
//! hundredths so the two encodings share one result type without losing
//! precision.

use vstd::prelude::*;

verus! {

/// Vendor identifier announcing a Format A payload.
pub const FORMAT_A_VENDOR_ID: u16 = 0x8801;

/// Vendor identifier announcing a Format B payload.
pub const FORMAT_B_VENDOR_ID: u16 = 0xec88;

/// A fully decoded sensor reading. Temperature and humidity are fixed-point
/// values in hundredths of a degree Celsius and hundredths of a percent.
#[derive(Clone, Copy, PartialEq, Eq, Structural, Debug)]
pub struct DecodedReading {
    pub temperature_centi: i32,
    pub humidity_centi: i32,
    pub battery: u8,
}

/// The set of known payload layouts, keyed by vendor identifier. Adding a
/// vendor format means adding a variant here; the dispatch in `decode` does
/// not change.
#[derive(Clone, Copy, PartialEq, Eq, Structural, Debug)]
pub enum VendorFormat {
    FormatA,
    FormatB,
}

/// The format a vendor identifier announces, if any.
pub open spec fn spec_format_of(vendor_id: u16) -> Option<VendorFormat> {
    if vendor_id == FORMAT_A_VENDOR_ID {
        Some(VendorFormat::FormatA)
    } else if vendor_id == FORMAT_B_VENDOR_ID {
        Some(VendorFormat::FormatB)
    } else {
        None
    }
}

/// Minimum payload length each format requires before any field is read.
pub open spec fn spec_min_len(f: VendorFormat) -> nat {
    match f {
        VendorFormat::FormatA => 9,
        VendorFormat::FormatB => 5,
    }
}

/// Two's-complement value of a 16-bit little-endian integer given as two bytes.
pub open spec fn spec_i16_le(lo: u8, hi: u8) -> int {
    let u = lo + 256 * (hi as int);
    if u >= 0x8000 {
        u - 0x10000
    } else {
        u
    }
}

/// The raw 24-bit value composed from bytes 1, 2 and 3 of a Format B payload.
pub open spec fn spec_b_raw(bytes: Seq<u8>) -> int {
    bytes[1] * 0x10000 + bytes[2] * 0x100 + bytes[3]
}

/// Whether the sign flag (bit 23) of a Format B payload is set.
pub open spec fn spec_b_negative(bytes: Seq<u8>) -> bool {
    spec_b_raw(bytes) >= 0x800000
}

/// The 24-bit value with the sign flag cleared: the encoded magnitude.
pub open spec fn spec_b_magnitude(bytes: Seq<u8>) -> int {
    spec_b_raw(bytes) % 0x800000
}

/// What decoding a payload under a given format yields: a reading exactly
/// when the payload reaches the format's minimum length, never otherwise.
pub open spec fn spec_decode_format(f: VendorFormat, bytes: Seq<u8>) -> Option<DecodedReading> {
    if bytes.len() < spec_min_len(f) {
        None
    } else {
        match f {
            VendorFormat::FormatA => Some(
                DecodedReading {
                    temperature_centi: spec_i16_le(bytes[4], bytes[5]) as i32,
                    humidity_centi: spec_i16_le(bytes[6], bytes[7]) as i32,
                    battery: bytes[8],
                },
            ),
            VendorFormat::FormatB => Some(
                DecodedReading {
                    temperature_centi: (if spec_b_negative(bytes) {
                        -10 * (spec_b_magnitude(bytes) / 1000)
                    } else {
                        10 * (spec_b_magnitude(bytes) / 1000)
                    }) as i32,
                    humidity_centi: (10 * (spec_b_magnitude(bytes) % 1000)) as i32,
                    battery: bytes[4],
                },
            ),
        }
    }
}

/// What decoding yields for an arbitrary vendor identifier.
pub open spec fn spec_decode(vendor_id: u16, bytes: Seq<u8>) -> Option<DecodedReading> {
    match spec_format_of(vendor_id) {
        Some(f) => spec_decode_format(f, bytes),
        None => None,
    }
}

/// Looks up which known format a vendor identifier announces.
pub fn format_of(vendor_id: u16) -> (r: Option<VendorFormat>)
    ensures
        r == spec_format_of(vendor_id),
{
    if vendor_id == FORMAT_A_VENDOR_ID {
        Some(VendorFormat::FormatA)
    } else if vendor_id == FORMAT_B_VENDOR_ID {
        Some(VendorFormat::FormatB)
    } else {
        None
    }
}

/// Minimum number of payload bytes the format needs.
pub fn min_payload_len(f: VendorFormat) -> (n: usize)
    ensures
        n == spec_min_len(f),
{
    match f {
        VendorFormat::FormatA => 9,
        VendorFormat::FormatB => 5,
    }
}

/// Reads a signed 16-bit little-endian integer from two bytes.
pub fn i16_le(lo: u8, hi: u8) -> (r: i32)
    ensures
        r == spec_i16_le(lo, hi),
{
    let u: u32 = lo as u32 + 256 * (hi as u32);
    if u >= 0x8000 {
        (u as i32) - 0x10000
    } else {
        u as i32
    }
}

/// Decodes one vendor payload. Unknown vendor identifiers and undersized
/// payloads yield no reading; they are never an error.
pub fn decode(vendor_id: u16, payload: &Vec<u8>) -> (r: Option<DecodedReading>)
    ensures
        r == spec_decode(vendor_id, payload@),
{
    match format_of(vendor_id) {
        None => None,
        Some(f) => {
            if payload.len() < min_payload_len(f) {
                None
            } else {
                match f {
                    VendorFormat::FormatA => {
                        let t = i16_le(payload[4], payload[5]);
                        let h = i16_le(payload[6], payload[7]);
                        Some(DecodedReading { temperature_centi: t, humidity_centi: h, battery: payload[8] })
                    },
                    VendorFormat::FormatB => {
                        let raw: u32 = (payload[1] as u32) * 0x10000 + (payload[2] as u32) * 0x100
                            + (payload[3] as u32);
                        let negative = raw >= 0x800000;
                        let mag: u32 = if negative {
                            raw - 0x800000
                        } else {
                            raw
                        };
                        assert(mag == spec_b_magnitude(payload@));
                        let t: u32 = 10 * (mag / 1000);
                        let h: u32 = 10 * (mag % 1000);
                        let temperature_centi: i32 = if negative {
                            -(t as i32)
                        } else {
                            t as i32
                        };
                        Some(DecodedReading { temperature_centi, humidity_centi: h as i32, battery: payload[4] })
                    },
                }
            }
        },
    }
}

/// Format A decoding is deterministic: for every payload of at least nine
/// bytes it yields exactly the two's-complement interpretation of bytes 4-5
/// and 6-7 in hundredths, with the battery taken from byte 8.
pub proof fn lemma_format_a_exact(bytes: Seq<u8>)
    requires
        bytes.len() >= 9,
    ensures
        spec_decode(FORMAT_A_VENDOR_ID, bytes) == Some(
            (DecodedReading {
                temperature_centi: spec_i16_le(bytes[4], bytes[5]) as i32,
                humidity_centi: spec_i16_le(bytes[6], bytes[7]) as i32,
                battery: bytes[8],
            }),
        ),
{
}

/// Format B decoding always yields a reading for payloads of at least five
/// bytes; when the sign flag is clear the temperature is non-negative, when
/// it is set the temperature is the negation of the magnitude the cleared
/// value encodes, and the humidity is non-negative either way.
pub proof fn lemma_format_b_sign(bytes: Seq<u8>)
    requires
        bytes.len() >= 5,
    ensures
        spec_decode(FORMAT_B_VENDOR_ID, bytes) is Some,
        !spec_b_negative(bytes) ==> spec_decode(FORMAT_B_VENDOR_ID, bytes).unwrap().temperature_centi
            == 10 * (spec_b_magnitude(bytes) / 1000) >= 0,
        spec_b_negative(bytes) ==> spec_decode(FORMAT_B_VENDOR_ID, bytes).unwrap().temperature_centi
            == -10 * (spec_b_magnitude(bytes) / 1000) <= 0,
        spec_decode(FORMAT_B_VENDOR_ID, bytes).unwrap().humidity_centi >= 0,
{
    assert(spec_b_raw(bytes) >= 0);
    assert(spec_b_magnitude(bytes) >= 0);
    assert(spec_b_magnitude(bytes) / 1000 >= 0);
    assert(spec_b_magnitude(bytes) % 1000 >= 0);
}

/// Any vendor identifier outside the known set, or a payload shorter than
/// its format's minimum, yields no reading at all.
pub proof fn lemma_unrecognized_yields_none(vendor_id: u16, bytes: Seq<u8>)
    requires
        spec_format_of(vendor_id) is None || bytes.len() < spec_min_len(
            spec_format_of(vendor_id).unwrap(),
        ),
    ensures
        spec_decode(vendor_id, bytes) is None,
{
}

} // verus!
