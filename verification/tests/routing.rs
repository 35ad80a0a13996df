use ble_to_mqtt::config::Sensor;
use ble_to_mqtt::decode::{DecodedReading, FORMAT_A_VENDOR_ID};
use ble_to_mqtt::registry::IdentityRegistry;
use ble_to_mqtt::router::{process_event, route, AdvertisementEvent, RouteOutcome};

fn sensor(name: &str, mac: &str, topic: &str) -> Sensor {
    Sensor {
        name: name.to_string(),
        mac: mac.to_string(),
        mqtt_publish: topic.to_string(),
    }
}

fn bare_event(address: &str) -> AdvertisementEvent {
    AdvertisementEvent {
        device_address: address.to_string(),
        vendor_payloads: Vec::new(),
    }
}

#[test]
fn route_hit_builds_publish_intent() {
    let registry = IdentityRegistry::load(&vec![sensor(
        "garden",
        "aa:bb:cc:dd:ee:ff",
        "home/garden",
    )]);
    let reading = DecodedReading { temperature_centi: 2134, humidity_centi: 5560, battery: 87 };
    match route(&bare_event("Aa:Bb:Cc:Dd:Ee:Ff"), &reading, &registry) {
        RouteOutcome::Publish(intent) => {
            assert_eq!(intent.topic, "home/garden");
            assert_eq!(
                intent.payload,
                "{\"temperature\":\"21.3\",\"RH\":\"55.6\",\"battery\":87}"
            );
            assert_eq!(intent.qos, 1);
            assert!(intent.retained);
        }
        RouteOutcome::UnknownDevice(addr) => panic!("unexpected diagnostic for {}", addr),
    }
}

#[test]
fn route_miss_produces_one_diagnostic_and_no_publish() {
    let registry = IdentityRegistry::load(&vec![sensor(
        "garden",
        "aa:bb:cc:dd:ee:ff",
        "home/garden",
    )]);
    let reading = DecodedReading { temperature_centi: 100, humidity_centi: 200, battery: 3 };
    match route(&bare_event("11:22:33:44:55:66"), &reading, &registry) {
        RouteOutcome::Publish(intent) => panic!("unexpected publish to {}", intent.topic),
        RouteOutcome::UnknownDevice(addr) => assert_eq!(addr, "11:22:33:44:55:66"),
    }
}

#[test]
fn diagnostic_carries_normalized_address() {
    let registry = IdentityRegistry::load(&Vec::new());
    let reading = DecodedReading { temperature_centi: 0, humidity_centi: 0, battery: 0 };
    match route(&bare_event("de:ad:be:ef:00:01"), &reading, &registry) {
        RouteOutcome::Publish(_) => panic!("registry is empty"),
        RouteOutcome::UnknownDevice(addr) => assert_eq!(addr, "DE:AD:BE:EF:00:01"),
    }
}

#[test]
fn process_event_end_to_end() {
    let registry = IdentityRegistry::load(&vec![sensor(
        "garden",
        "aa:bb:cc:dd:ee:ff",
        "home/garden",
    )]);
    let event = AdvertisementEvent {
        device_address: "aa:bb:cc:dd:ee:ff".to_string(),
        vendor_payloads: vec![(
            FORMAT_A_VENDOR_ID,
            vec![0u8, 0, 0, 0, 0x34, 0x08, 0x15, 0x0A, 0x5D],
        )],
    };
    match process_event(&event, &registry).unwrap() {
        RouteOutcome::Publish(intent) => {
            assert_eq!(intent.topic, "home/garden");
            assert_eq!(
                intent.payload,
                "{\"temperature\":\"21.0\",\"RH\":\"25.8\",\"battery\":93}"
            );
        }
        RouteOutcome::UnknownDevice(addr) => panic!("unexpected diagnostic for {}", addr),
    }
}

#[test]
fn process_event_without_recognized_payload_yields_nothing() {
    let registry = IdentityRegistry::load(&vec![sensor(
        "garden",
        "aa:bb:cc:dd:ee:ff",
        "home/garden",
    )]);
    let event = AdvertisementEvent {
        device_address: "aa:bb:cc:dd:ee:ff".to_string(),
        vendor_payloads: vec![(0x4c00, vec![1u8, 2, 3, 4, 5, 6, 7, 8, 9])],
    };
    assert!(process_event(&event, &registry).is_none());
}
