//! The produce request grammar: acknowledgement count, timeout, then topics
//! carrying message-sets.

use vstd::prelude::*;

use crate::parser::message::{
    spec_topic_message_set, topic_message_set, TopicMessageSet, TopicMessageSetV,
};
use crate::parser::primitive::{
    be_i16, be_i32, kafka_array, parse_bounds, spec_be_i16, spec_be_i32, spec_kafka_array,
    wire_pos, Parsed, SpecParsed,
};

verus! {

#[derive(Debug, PartialEq)]
pub struct ProduceRequest {
    pub required_acks: i16,
    pub timeout: i32,
    pub topics: Vec<TopicMessageSet>,
}

#[verifier::ext_equal]
pub struct ProduceRequestV {
    pub required_acks: i16,
    pub timeout: i32,
    pub topics: Seq<TopicMessageSetV>,
}

impl DeepView for ProduceRequest {
    type V = ProduceRequestV;

    open spec fn deep_view(&self) -> ProduceRequestV {
        ProduceRequestV {
            required_acks: self.required_acks,
            timeout: self.timeout,
            topics: self.topics.deep_view(),
        }
    }
}

/// The topic-message-set grammar as a value, for array decoding.
pub open spec fn tms_elem() -> spec_fn(Seq<u8>, int) -> SpecParsed<TopicMessageSetV> {
    |ss: Seq<u8>, pp: int| spec_topic_message_set(ss, pp)
}

/// A whole produce request.
pub open spec fn spec_produce_request(s: Seq<u8>, pos: int) -> SpecParsed<ProduceRequestV> {
    match spec_be_i16(s, pos) {
        SpecParsed::Done(p1, required_acks) => match spec_be_i32(s, p1) {
            SpecParsed::Done(p2, timeout) => match spec_kafka_array(s, p2, tms_elem()) {
                SpecParsed::Done(n, topics) => SpecParsed::Done(
                    n,
                    ProduceRequestV { required_acks, timeout, topics },
                ),
                SpecParsed::Incomplete(k) => SpecParsed::Incomplete((p2 - pos) + k),
                SpecParsed::Fail(e) => SpecParsed::Fail(e),
            },
            SpecParsed::Incomplete(k) => SpecParsed::Incomplete((p1 - pos) + k),
            SpecParsed::Fail(e) => SpecParsed::Fail(e),
        },
        SpecParsed::Incomplete(k) => SpecParsed::Incomplete(k),
        SpecParsed::Fail(e) => SpecParsed::Fail(e),
    }
}

pub fn produce_request(input: &Vec<u8>, pos: usize) -> (r: Parsed<ProduceRequest>)
    requires
        wire_pos(input@, pos as int),
    ensures
        r@ == spec_produce_request(input@, pos as int),
        parse_bounds(r@, input@.len() as int, pos as int),
{
    match be_i16(input, pos) {
        Parsed::Done(p1, required_acks) => match be_i32(input, p1) {
            Parsed::Done(p2, timeout) => match kafka_array(
                input,
                p2,
                &topic_message_set,
                Ghost(tms_elem()),
            ) {
                Parsed::Done(n, topics) => Parsed::Done(
                    n,
                    ProduceRequest { required_acks, timeout, topics },
                ),
                Parsed::Incomplete(k) => Parsed::Incomplete((p2 - pos) + k),
                Parsed::Fail(e) => Parsed::Fail(e),
            },
            Parsed::Incomplete(k) => Parsed::Incomplete((p1 - pos) + k),
            Parsed::Fail(e) => Parsed::Fail(e),
        },
        Parsed::Incomplete(k) => Parsed::Incomplete(k),
        Parsed::Fail(e) => Parsed::Fail(e),
    }
}

} // verus!
