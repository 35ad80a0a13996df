//! Bridge core for environmental sensor advertisements.
//!
//! Decodes vendor-specific binary advertisement payloads into structured
//! readings, resolves the originating device against a configured identity
//! registry, and produces idempotent publish intents for a message bus.
//! Temperatures and humidities are carried as fixed-point integers in
//! hundredths of a unit, so that decoding and wire formatting are exact.

pub mod config;
pub mod decode;
pub mod registry;
pub mod router;
pub mod wire;
