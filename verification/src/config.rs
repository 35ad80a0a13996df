//! Configuration data consumed by the core.
//!
//! These are the loaded, validated shapes of the operator's configuration:
//! the message-bus connection settings and the ordered list of sensor
//! identities. Reading and parsing the configuration file is an external
//! concern; the core only works on these plain values.

use vstd::prelude::*;

verus! {

/// Message-bus connection settings. `disabled` means no publishing is
/// attempted; the core still computes every would-be publish.
#[derive(Debug)]
pub struct MQTTConfig {
    pub disabled: bool,
    pub endpoint: String,
    pub client_id: String,
    pub username: String,
    pub password: String,
}

/// One operator-configured sensor identity: a display name, the device
/// address it reports under, and the topic its readings are published to.
#[derive(Debug)]
pub struct Sensor {
    pub name: String,
    pub mac: String,
    pub mqtt_publish: String,
}

/// The whole loaded configuration.
#[derive(Debug)]
pub struct Config {
    pub mqtt_config: MQTTConfig,
    pub sensors: Vec<Sensor>,
}

} // verus!
