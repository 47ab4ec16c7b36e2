//! The metadata request grammar: an array of topic names. An empty array
//! means "all topics" by convention, but that reading belongs to the business
//! logic, not the codec.

use vstd::prelude::*;

use crate::parser::primitive::{
    kafka_array, kafka_string, parse_bounds, spec_kafka_array, spec_kafka_string, wire_pos,
    Parsed, SpecParsed,
};

verus! {

pub type TopicMetadataRequest = Vec<Vec<u8>>;

/// The string grammar as a value, for array decoding.
pub open spec fn string_elem() -> spec_fn(Seq<u8>, int) -> SpecParsed<Seq<u8>> {
    |ss: Seq<u8>, pp: int| spec_kafka_string(ss, pp)
}

/// A whole metadata request: the topic-name array.
pub open spec fn spec_topic_metadata_request(s: Seq<u8>, pos: int) -> SpecParsed<Seq<Seq<u8>>> {
    spec_kafka_array(s, pos, string_elem())
}

pub fn topic_metadata_request(input: &Vec<u8>, pos: usize) -> (r: Parsed<TopicMetadataRequest>)
    requires
        wire_pos(input@, pos as int),
    ensures
        r@ == spec_topic_metadata_request(input@, pos as int),
        parse_bounds(r@, input@.len() as int, pos as int),
{
    kafka_array(input, pos, &kafka_string, Ghost(string_elem()))
}

} // verus!
