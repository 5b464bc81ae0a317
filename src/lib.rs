//! Event relay: HTTP payloads wrapped in event envelopes for a broker topic,
//! and a consumer that decodes broker messages and applies a price rule.

pub mod config;
pub mod consumer;
pub mod envelope;
pub mod gateway;
pub mod number;
pub mod payload;
pub mod price;
