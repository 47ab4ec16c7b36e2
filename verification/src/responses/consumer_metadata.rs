//! The consumer-metadata (group-coordinator) response serializer.

use vstd::prelude::*;

use crate::responses::primitive::{
    ser_i16, ser_i32, ser_kafka_string, spec_ser_i16, spec_ser_i32, spec_ser_kafka_string,
};

verus! {

#[derive(Debug, PartialEq)]
pub struct ConsumerMetadataResponse {
    pub error_code: i16,
    pub coordinator_id: i32,
    pub coordinator_host: Vec<u8>,
    pub coordinator_port: i32,
}

#[verifier::ext_equal]
pub struct ConsumerMetadataResponseV {
    pub error_code: i16,
    pub coordinator_id: i32,
    pub coordinator_host: Seq<u8>,
    pub coordinator_port: i32,
}

impl DeepView for ConsumerMetadataResponse {
    type V = ConsumerMetadataResponseV;

    open spec fn deep_view(&self) -> ConsumerMetadataResponseV {
        ConsumerMetadataResponseV {
            error_code: self.error_code,
            coordinator_id: self.coordinator_id,
            coordinator_host: self.coordinator_host@,
            coordinator_port: self.coordinator_port,
        }
    }
}

/// The bytes of a whole encoded consumer-metadata response.
pub open spec fn spec_ser_consumer_metadata_response(r: ConsumerMetadataResponseV) -> Seq<u8> {
    spec_ser_i16(r.error_code) + spec_ser_i32(r.coordinator_id) + spec_ser_kafka_string(
        r.coordinator_host,
    ) + spec_ser_i32(r.coordinator_port)
}

/// Serializes a whole consumer-metadata response onto `output`.
pub fn ser_consumer_metadata_response(r: &ConsumerMetadataResponse, output: &mut Vec<u8>)
    requires
        r.coordinator_host@.len() <= 0x7fff,
    ensures
        final(output)@ == old(output)@ + spec_ser_consumer_metadata_response(r.deep_view()),
{
    ser_i16(r.error_code, output);
    ser_i32(r.coordinator_id, output);
    ser_kafka_string(&r.coordinator_host, output);
    ser_i32(r.coordinator_port, output);
    proof {
        assert(output@ =~= old(output)@ + spec_ser_consumer_metadata_response(r.deep_view()));
    }
}

} // verus!
