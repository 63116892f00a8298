//! Verified core of a vehicle telemetry bridge: a diagnostic request/response
//! codec for the vehicle bus, and an attribute server that materialises a
//! declarative schema from stack events and publishes values by acknowledged
//! indication.

pub mod obd;
pub mod schema;
pub mod event;
pub mod wireless;
pub mod laws;
