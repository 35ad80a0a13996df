//! Routing of decoded readings to publish intents.
//!
//! One advertisement event carries a raw device address and the vendor
//! payloads the advertisement announced. Decoding tries the known formats in
//! a fixed priority order; a decoded reading is then routed by normalizing
//! the address, resolving it in the identity registry, and producing either
//! a publish intent or an unknown-device diagnostic. Performing the publish
//! (or logging it when publishing is disabled) is the caller's concern.

use crate::decode::DecodedReading;
use crate::decode::FORMAT_A_VENDOR_ID;
use crate::decode::FORMAT_B_VENDOR_ID;
use crate::decode::decode;
use crate::decode::spec_decode;
use crate::registry::IdentityRegistry;
use crate::registry::normalize_address;
use crate::registry::spec_lookup;
use crate::registry::spec_normalize;
use crate::wire::serialize_reading;
use crate::wire::spec_serialize_reading;
use vstd::prelude::*;

verus! {

/// One advertisement as the radio stack reports it: the raw device address
/// and the vendor payloads, as pairs of vendor identifier and raw bytes.
pub struct AdvertisementEvent {
    pub device_address: String,
    pub vendor_payloads: Vec<(u16, Vec<u8>)>,
}

/// A publish action for the message bus: topic, serialized payload, and the
/// fixed delivery parameters (at-least-once, retained).
pub struct PublishIntent {
    pub topic: String,
    pub payload: String,
    pub qos: u8,
    pub retained: bool,
}

/// What routing one decoded reading produces: a publish intent on a registry
/// hit, or a diagnostic carrying the normalized address on a miss.
pub enum RouteOutcome {
    Publish(PublishIntent),
    UnknownDevice(String),
}

/// The reading decoded from the first payload entry that carries the given
/// vendor identifier and is long enough to decode, if any.
pub open spec fn spec_first_decodable(
    entries: Seq<(u16, Vec<u8>)>,
    vendor_id: u16,
) -> Option<DecodedReading>
    decreases entries.len(),
{
    if entries.len() == 0 {
        None
    } else if entries[0].0 == vendor_id && spec_decode(vendor_id, entries[0].1@) is Some {
        spec_decode(vendor_id, entries[0].1@)
    } else {
        spec_first_decodable(entries.skip(1), vendor_id)
    }
}

/// The reading an event yields: Format A payloads take priority over
/// Format B payloads; an event with neither yields none.
pub open spec fn spec_decode_event(entries: Seq<(u16, Vec<u8>)>) -> Option<DecodedReading> {
    if spec_first_decodable(entries, FORMAT_A_VENDOR_ID) is Some {
        spec_first_decodable(entries, FORMAT_A_VENDOR_ID)
    } else {
        spec_first_decodable(entries, FORMAT_B_VENDOR_ID)
    }
}

/// Scans the payload entries for the first one under the given vendor
/// identifier that decodes.
fn first_decodable(entries: &Vec<(u16, Vec<u8>)>, vendor_id: u16) -> (r: Option<DecodedReading>)
    ensures
        r == spec_first_decodable(entries@, vendor_id),
{
    let n = entries.len();
    let mut i: usize = 0;
    proof {
        assert(entries@.skip(0) =~= entries@);
    }
    while i < n
        invariant
            i <= n,
            n == entries@.len(),
            spec_first_decodable(entries@, vendor_id) == spec_first_decodable(
                entries@.skip(i as int),
                vendor_id,
            ),
        decreases n - i,
    {
        proof {
            assert(entries@.skip(i as int)[0] == entries@[i as int]);
            assert(entries@.skip(i as int).skip(1) =~= entries@.skip(i as int + 1));
        }
        let e = &entries[i];
        if e.0 == vendor_id {
            let r = decode(vendor_id, &e.1);
            if r.is_some() {
                return r;
            }
        }
        i += 1;
    }
    None
}

/// Decodes one advertisement event. An event that carries a recognized,
/// sufficiently long payload yields exactly one reading; all other events
/// yield none.
pub fn decode_event(entries: &Vec<(u16, Vec<u8>)>) -> (r: Option<DecodedReading>)
    ensures
        r == spec_decode_event(entries@),
{
    let a = first_decodable(entries, FORMAT_A_VENDOR_ID);
    if a.is_some() {
        a
    } else {
        first_decodable(entries, FORMAT_B_VENDOR_ID)
    }
}

/// A scan for one vendor identifier finds a reading exactly when some entry
/// carries that identifier with a payload long enough to decode.
proof fn lemma_first_decodable_iff(entries: Seq<(u16, Vec<u8>)>, vendor_id: u16)
    ensures
        (spec_first_decodable(entries, vendor_id) is Some) <==> (exists|i: int|
            0 <= i < entries.len() && (#[trigger] entries[i]).0 == vendor_id && spec_decode(
                vendor_id,
                entries[i].1@,
            ) is Some),
    decreases entries.len(),
{
    if entries.len() > 0 {
        lemma_first_decodable_iff(entries.skip(1), vendor_id);
        if entries[0].0 == vendor_id && spec_decode(vendor_id, entries[0].1@) is Some {
        } else {
            if spec_first_decodable(entries.skip(1), vendor_id) is Some {
                let i = choose|i: int|
                    0 <= i < entries.skip(1).len() && (#[trigger] entries.skip(1)[i]).0
                        == vendor_id && spec_decode(vendor_id, entries.skip(1)[i].1@) is Some;
                assert(entries[i + 1] == entries.skip(1)[i]);
            }
            if exists|i: int|
                0 <= i < entries.len() && (#[trigger] entries[i]).0 == vendor_id && spec_decode(
                    vendor_id,
                    entries[i].1@,
                ) is Some {
                let i = choose|i: int|
                    0 <= i < entries.len() && (#[trigger] entries[i]).0 == vendor_id
                        && spec_decode(vendor_id, entries[i].1@) is Some;
                assert(entries.skip(1)[i - 1] == entries[i]);
            }
        }
    }
}

/// An advertisement event yields a reading exactly when it carries a byte
/// sequence under a recognized vendor identifier of at least the length that
/// format requires; every other event yields none.
pub proof fn lemma_event_yields_iff_decodable(entries: Seq<(u16, Vec<u8>)>)
    ensures
        (spec_decode_event(entries) is Some) <==> (exists|i: int|
            0 <= i < entries.len() && spec_decode(
                (#[trigger] entries[i]).0,
                entries[i].1@,
            ) is Some),
{
    lemma_first_decodable_iff(entries, FORMAT_A_VENDOR_ID);
    lemma_first_decodable_iff(entries, FORMAT_B_VENDOR_ID);
    if spec_decode_event(entries) is Some {
        if spec_first_decodable(entries, FORMAT_A_VENDOR_ID) is Some {
            let i = choose|i: int|
                0 <= i < entries.len() && (#[trigger] entries[i]).0 == FORMAT_A_VENDOR_ID
                    && spec_decode(FORMAT_A_VENDOR_ID, entries[i].1@) is Some;
            assert(spec_decode(entries[i].0, entries[i].1@) is Some);
        } else {
            let i = choose|i: int|
                0 <= i < entries.len() && (#[trigger] entries[i]).0 == FORMAT_B_VENDOR_ID
                    && spec_decode(FORMAT_B_VENDOR_ID, entries[i].1@) is Some;
            assert(spec_decode(entries[i].0, entries[i].1@) is Some);
        }
    }
    if exists|i: int|
        0 <= i < entries.len() && spec_decode((#[trigger] entries[i]).0, entries[i].1@) is Some {
        let i = choose|i: int|
            0 <= i < entries.len() && spec_decode((#[trigger] entries[i]).0, entries[i].1@) is Some;
        assert(entries[i].0 == FORMAT_A_VENDOR_ID || entries[i].0 == FORMAT_B_VENDOR_ID);
    }
}

/// Routes one decoded reading: normalizes the event's originating address,
/// resolves it in the registry, and produces the publish intent (topic from
/// the matched identity, payload in the wire format, at-least-once, retained)
/// or an unknown-device diagnostic carrying the normalized address.
pub fn route(event: &AdvertisementEvent, reading: &DecodedReading, registry: &IdentityRegistry) -> (out:
    RouteOutcome)
    ensures
        ({
            let norm = spec_normalize(event.device_address@);
            match spec_lookup(registry@, norm) {
                Some(s) => out matches RouteOutcome::Publish(p) && p.topic@ == s.mqtt_publish@
                    && p.payload@ == spec_serialize_reading(*reading) && p.qos == 1 && p.retained,
                None => out matches RouteOutcome::UnknownDevice(a) && a@ == norm,
            }
        }),
{
    let norm = normalize_address(event.device_address.as_str());
    match registry.lookup(norm.as_str()) {
        Some(sensor) => {
            let payload = serialize_reading(reading);
            RouteOutcome::Publish(
                PublishIntent { topic: sensor.mqtt_publish.clone(), payload, qos: 1, retained: true },
            )
        },
        None => RouteOutcome::UnknownDevice(norm),
    }
}

/// Processes one advertisement event end to end: decodes it and, exactly
/// when a reading came out, routes that reading. Events with no recognized
/// payload leave no outcome and no publish.
pub fn process_event(event: &AdvertisementEvent, registry: &IdentityRegistry) -> (out: Option<
    RouteOutcome,
>)
    ensures
        (out is Some) == (spec_decode_event(event.vendor_payloads@) is Some),
        out is Some ==> ({
            let reading = spec_decode_event(event.vendor_payloads@).unwrap();
            let norm = spec_normalize(event.device_address@);
            match spec_lookup(registry@, norm) {
                Some(s) => out.unwrap() matches RouteOutcome::Publish(p) && p.topic@
                    == s.mqtt_publish@ && p.payload@ == spec_serialize_reading(reading) && p.qos
                    == 1 && p.retained,
                None => out.unwrap() matches RouteOutcome::UnknownDevice(a) && a@ == norm,
            }
        }),
{
    match decode_event(&event.vendor_payloads) {
        Some(reading) => Some(route(event, &reading, registry)),
        None => None,
    }
}

} // verus!
