//! The consumer-metadata (group-coordinator) request grammar: one consumer
//! group name.

use vstd::prelude::*;

use crate::parser::primitive::{
    kafka_string, parse_bounds, spec_kafka_string, wire_pos, Parsed, SpecParsed,
};

verus! {

pub type ConsumerMetadataRequest = Vec<u8>;

/// A whole consumer-metadata request: the consumer group string.
pub open spec fn spec_consumer_metadata_request(s: Seq<u8>, pos: int) -> SpecParsed<Seq<u8>> {
    spec_kafka_string(s, pos)
}

pub fn consumer_metadata_request(input: &Vec<u8>, pos: usize) -> (r: Parsed<
    ConsumerMetadataRequest,
>)
    requires
        wire_pos(input@, pos as int),
    ensures
        r@ == spec_consumer_metadata_request(input@, pos as int),
        parse_bounds(r@, input@.len() as int, pos as int),
{
    kafka_string(input, pos)
}

} // verus!
