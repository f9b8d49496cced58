//! Decoder for the framed binary telemetry stream of a ThinkGear EEG headset
//! dongle.
//!
//! Bytes are fed one at a time into a [`Parser`], which finds packet
//! boundaries by a two-byte sync sequence, accumulates a length-delimited
//! payload, verifies a checksum, and decodes the payload into typed
//! [`PacketType`] records.

pub mod parser;
pub mod protocol;
pub mod records;
pub mod stream;

pub use parser::Parser;
pub use parser::State;
pub use records::AsicEeg;
pub use records::PacketType;
