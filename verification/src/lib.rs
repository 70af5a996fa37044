//! Decoding of hexadecimal combat-log fields into typed records, and
//! validation of the integrity suffix that closes each log line.

pub mod actor;
pub mod checksum;
pub mod digest;
pub mod effect;
pub mod error;
pub mod number;
pub mod record;
pub mod timestamp;
