//! The response side of the codec: primitive encoders and the per-response
//! serializers, mirroring the request grammars.

pub mod api_versions;
pub mod consumer_metadata;
pub mod fetch;
pub mod metadata;
pub mod offset;
pub mod offset_commit;
pub mod offset_fetch;
pub mod primitive;
pub mod produce;
pub mod response;
