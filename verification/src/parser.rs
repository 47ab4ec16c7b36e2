//! The request side of the codec: primitive decoders and the per-API request
//! grammars.

pub mod consumer_metadata;
pub mod fetch;
pub mod message;
pub mod metadata;
pub mod offset;
pub mod offset_commit;
pub mod offset_fetch;
pub mod primitive;
pub mod produce;
pub mod request;
