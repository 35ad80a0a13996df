use ble_to_mqtt::decode::{
    decode, format_of, min_payload_len, DecodedReading, VendorFormat, FORMAT_A_VENDOR_ID,
    FORMAT_B_VENDOR_ID,
};
use ble_to_mqtt::router::decode_event;

#[test]
fn vendor_table_maps_known_identifiers() {
    assert_eq!(format_of(FORMAT_A_VENDOR_ID), Some(VendorFormat::FormatA));
    assert_eq!(format_of(FORMAT_B_VENDOR_ID), Some(VendorFormat::FormatB));
    assert_eq!(format_of(0x0001), None);
    assert_eq!(min_payload_len(VendorFormat::FormatA), 9);
    assert_eq!(min_payload_len(VendorFormat::FormatB), 5);
}

#[test]
fn format_a_known_payload() {
    // temperature 0x0834 = 2100 -> 21.00, humidity 0x0A15 = 2581 -> 25.81, battery 0x5D = 93
    let payload = vec![0u8, 0, 0, 0, 0x34, 0x08, 0x15, 0x0A, 0x5D];
    let r = decode(FORMAT_A_VENDOR_ID, &payload).unwrap();
    assert_eq!(
        r,
        DecodedReading { temperature_centi: 2100, humidity_centi: 2581, battery: 93 }
    );
}

#[test]
fn format_a_negative_temperature() {
    // -500 as two's-complement i16 little-endian: 0x0C 0xFE
    let payload = vec![0u8, 0, 0, 0, 0x0C, 0xFE, 0x15, 0x0A, 0x10];
    let r = decode(FORMAT_A_VENDOR_ID, &payload).unwrap();
    assert_eq!(r.temperature_centi, -500);
    assert_eq!(r.humidity_centi, 2581);
    assert_eq!(r.battery, 0x10);
}

#[test]
fn format_a_extra_bytes_ignored() {
    let payload = vec![9u8, 9, 9, 9, 0x34, 0x08, 0x15, 0x0A, 0x5D, 0xFF, 0xFF];
    let r = decode(FORMAT_A_VENDOR_ID, &payload).unwrap();
    assert_eq!(r.temperature_centi, 2100);
}

#[test]
fn format_b_sign_clear() {
    // raw 0x0334F6 = 210166 -> temperature 210166/1000 = 210 tenths = 21.0,
    // humidity 210166%1000 = 166 tenths = 16.6, battery 0x40 = 64
    let payload = vec![0u8, 0x03, 0x34, 0xF6, 0x40];
    let r = decode(FORMAT_B_VENDOR_ID, &payload).unwrap();
    assert_eq!(
        r,
        DecodedReading { temperature_centi: 2100, humidity_centi: 1660, battery: 64 }
    );
}

#[test]
fn format_b_sign_set_negates_temperature() {
    // same magnitude with bit 23 set: temperature negated, humidity unchanged
    let payload = vec![0u8, 0x83, 0x34, 0xF6, 0x40];
    let r = decode(FORMAT_B_VENDOR_ID, &payload).unwrap();
    assert_eq!(
        r,
        DecodedReading { temperature_centi: -2100, humidity_centi: 1660, battery: 64 }
    );
}

#[test]
fn unknown_vendor_yields_none() {
    let payload = vec![0u8, 0, 0, 0, 0x34, 0x08, 0x15, 0x0A, 0x5D];
    assert!(decode(0x1234, &payload).is_none());
    assert!(decode(0x0000, &payload).is_none());
    assert!(decode(0xffff, &payload).is_none());
}

#[test]
fn short_payloads_yield_none() {
    let eight = vec![0u8, 0, 0, 0, 0x34, 0x08, 0x15, 0x0A];
    assert!(decode(FORMAT_A_VENDOR_ID, &eight).is_none());
    let four = vec![0u8, 0x03, 0x34, 0xF6];
    assert!(decode(FORMAT_B_VENDOR_ID, &four).is_none());
    let empty: Vec<u8> = Vec::new();
    assert!(decode(FORMAT_A_VENDOR_ID, &empty).is_none());
    assert!(decode(FORMAT_B_VENDOR_ID, &empty).is_none());
}

#[test]
fn event_prefers_format_a() {
    let entries = vec![
        (FORMAT_B_VENDOR_ID, vec![0u8, 0x03, 0x34, 0xF6, 0x40]),
        (FORMAT_A_VENDOR_ID, vec![0u8, 0, 0, 0, 0x34, 0x08, 0x15, 0x0A, 0x5D]),
    ];
    let r = decode_event(&entries).unwrap();
    assert_eq!(r.humidity_centi, 2581);
}

#[test]
fn event_falls_through_undersized_payload() {
    let entries = vec![
        (FORMAT_A_VENDOR_ID, vec![0u8, 0, 0]),
        (FORMAT_B_VENDOR_ID, vec![0u8, 0x03, 0x34, 0xF6, 0x40]),
    ];
    let r = decode_event(&entries).unwrap();
    assert_eq!(r.temperature_centi, 2100);
    assert_eq!(r.humidity_centi, 1660);
}

#[test]
fn event_with_no_recognized_payload_yields_none() {
    let entries = vec![(0x4c00u16, vec![1u8, 2, 3, 4, 5, 6, 7, 8, 9])];
    assert!(decode_event(&entries).is_none());
    let none: Vec<(u16, Vec<u8>)> = Vec::new();
    assert!(decode_event(&none).is_none());
}
