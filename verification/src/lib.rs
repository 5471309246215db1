//! Verified core of an IoT ingestion platform: the device-connection gateway
//! and the queue-driven telemetry pipeline.

pub mod clock;
pub mod connection;
pub mod consumer;
pub mod float_text;
pub mod liveness;
pub mod naming;
pub mod numeral;
pub mod queues;
pub mod registry;
pub mod schema;
pub mod session;
pub mod storage;
pub mod string_map;
pub mod text;
