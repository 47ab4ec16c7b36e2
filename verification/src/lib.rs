//! A verified codec for the Kafka wire protocol (the 0.9-era version matrix),
//! together with the frame-reassembly decisions of a nonblocking connection
//! handler: big-endian primitives, length-prefixed bytes, strings and arrays,
//! the CRC-checked message/message-set format, per-API request decoding, and
//! response encoding with exact length prefixes.

mod errors;
pub mod network;
pub mod num;
pub mod parser;
pub mod proust;
pub mod responses;
pub mod topic;
pub mod utf8;

pub use errors::from_int;
pub use errors::InputError;
