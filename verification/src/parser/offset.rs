//! The list-offsets ("offset") request grammar: replica id, then topics with
//! per-partition time and count bounds.

use vstd::prelude::*;

use crate::parser::primitive::{
    be_i32, be_i64, kafka_array, kafka_string, lemma_vec_u8_deep_view, parse_bounds, spec_be_i32,
    spec_be_i64, spec_kafka_array, spec_kafka_string, wire_pos, Parsed, SpecParsed,
};

verus! {

#[derive(Debug, PartialEq)]
pub struct PartitionOffset {
    pub partition: i32,
    pub time: i64,
    pub max_number_of_offsets: i32,
}

impl DeepView for PartitionOffset {
    type V = PartitionOffset;

    open spec fn deep_view(&self) -> PartitionOffset {
        *self
    }
}

#[derive(Debug, PartialEq)]
pub struct TopicOffset {
    pub topic_name: Vec<u8>,
    pub partitions: Vec<PartitionOffset>,
}

#[verifier::ext_equal]
pub struct TopicOffsetV {
    pub topic_name: Seq<u8>,
    pub partitions: Seq<PartitionOffset>,
}

impl DeepView for TopicOffset {
    type V = TopicOffsetV;

    open spec fn deep_view(&self) -> TopicOffsetV {
        TopicOffsetV { topic_name: self.topic_name@, partitions: self.partitions.deep_view() }
    }
}

#[derive(Debug, PartialEq)]
pub struct OffsetRequest {
    pub replica_id: i32,
    pub topics: Vec<TopicOffset>,
}

#[verifier::ext_equal]
pub struct OffsetRequestV {
    pub replica_id: i32,
    pub topics: Seq<TopicOffsetV>,
}

impl DeepView for OffsetRequest {
    type V = OffsetRequestV;

    open spec fn deep_view(&self) -> OffsetRequestV {
        OffsetRequestV { replica_id: self.replica_id, topics: self.topics.deep_view() }
    }
}

/// One partition of a list-offsets request: partition id, time, offset count.
pub open spec fn spec_partition_offset(s: Seq<u8>, pos: int) -> SpecParsed<PartitionOffset> {
    match spec_be_i32(s, pos) {
        SpecParsed::Done(p1, partition) => match spec_be_i64(s, p1) {
            SpecParsed::Done(p2, time) => match spec_be_i32(s, p2) {
                SpecParsed::Done(n, max_number_of_offsets) => SpecParsed::Done(
                    n,
                    PartitionOffset { partition, time, max_number_of_offsets },
                ),
                SpecParsed::Incomplete(k) => SpecParsed::Incomplete((p2 - pos) + k),
                SpecParsed::Fail(e) => SpecParsed::Fail(e),
            },
            SpecParsed::Incomplete(k) => SpecParsed::Incomplete((p1 - pos) + k),
            SpecParsed::Fail(e) => SpecParsed::Fail(e),
        },
        SpecParsed::Incomplete(k) => SpecParsed::Incomplete(k),
        SpecParsed::Fail(e) => SpecParsed::Fail(e),
    }
}

pub fn partition_offset(input: &Vec<u8>, pos: usize) -> (r: Parsed<PartitionOffset>)
    requires
        wire_pos(input@, pos as int),
    ensures
        r@ == spec_partition_offset(input@, pos as int),
        parse_bounds(r@, input@.len() as int, pos as int),
{
    match be_i32(input, pos) {
        Parsed::Done(p1, partition) => match be_i64(input, p1) {
            Parsed::Done(p2, time) => match be_i32(input, p2) {
                Parsed::Done(n, max_number_of_offsets) => Parsed::Done(
                    n,
                    PartitionOffset { partition, time, max_number_of_offsets },
                ),
                Parsed::Incomplete(k) => Parsed::Incomplete((p2 - pos) + k),
                Parsed::Fail(e) => Parsed::Fail(e),
            },
            Parsed::Incomplete(k) => Parsed::Incomplete((p1 - pos) + k),
            Parsed::Fail(e) => Parsed::Fail(e),
        },
        Parsed::Incomplete(k) => Parsed::Incomplete(k),
        Parsed::Fail(e) => Parsed::Fail(e),
    }
}

/// The partition-offset grammar as a value, for array decoding.
pub open spec fn partition_offset_elem() -> spec_fn(Seq<u8>, int) -> SpecParsed<PartitionOffset> {
    |ss: Seq<u8>, pp: int| spec_partition_offset(ss, pp)
}

/// One topic of a list-offsets request.
pub open spec fn spec_topic_offset(s: Seq<u8>, pos: int) -> SpecParsed<TopicOffsetV> {
    match spec_kafka_string(s, pos) {
        SpecParsed::Done(p1, name) => match spec_kafka_array(s, p1, partition_offset_elem()) {
            SpecParsed::Done(n, parts) => SpecParsed::Done(
                n,
                TopicOffsetV { topic_name: name, partitions: parts },
            ),
            SpecParsed::Incomplete(k) => SpecParsed::Incomplete((p1 - pos) + k),
            SpecParsed::Fail(e) => SpecParsed::Fail(e),
        },
        SpecParsed::Incomplete(k) => SpecParsed::Incomplete(k),
        SpecParsed::Fail(e) => SpecParsed::Fail(e),
    }
}

pub fn topic_offset(input: &Vec<u8>, pos: usize) -> (r: Parsed<TopicOffset>)
    requires
        wire_pos(input@, pos as int),
    ensures
        r@ == spec_topic_offset(input@, pos as int),
        parse_bounds(r@, input@.len() as int, pos as int),
{
    broadcast use lemma_vec_u8_deep_view;

    match kafka_string(input, pos) {
        Parsed::Done(p1, topic_name) => match kafka_array(
            input,
            p1,
            &partition_offset,
            Ghost(partition_offset_elem()),
        ) {
            Parsed::Done(n, partitions) => Parsed::Done(n, TopicOffset { topic_name, partitions }),
            Parsed::Incomplete(k) => Parsed::Incomplete((p1 - pos) + k),
            Parsed::Fail(e) => Parsed::Fail(e),
        },
        Parsed::Incomplete(k) => Parsed::Incomplete(k),
        Parsed::Fail(e) => Parsed::Fail(e),
    }
}

/// The topic-offset grammar as a value, for array decoding.
pub open spec fn topic_offset_elem() -> spec_fn(Seq<u8>, int) -> SpecParsed<TopicOffsetV> {
    |ss: Seq<u8>, pp: int| spec_topic_offset(ss, pp)
}

/// A whole list-offsets request.
pub open spec fn spec_offset_request(s: Seq<u8>, pos: int) -> SpecParsed<OffsetRequestV> {
    match spec_be_i32(s, pos) {
        SpecParsed::Done(p1, replica_id) => match spec_kafka_array(s, p1, topic_offset_elem()) {
            SpecParsed::Done(n, topics) => SpecParsed::Done(
                n,
                OffsetRequestV { replica_id, topics },
            ),
            SpecParsed::Incomplete(k) => SpecParsed::Incomplete((p1 - pos) + k),
            SpecParsed::Fail(e) => SpecParsed::Fail(e),
        },
        SpecParsed::Incomplete(k) => SpecParsed::Incomplete(k),
        SpecParsed::Fail(e) => SpecParsed::Fail(e),
    }
}

pub fn offset_request(input: &Vec<u8>, pos: usize) -> (r: Parsed<OffsetRequest>)
    requires
        wire_pos(input@, pos as int),
    ensures
        r@ == spec_offset_request(input@, pos as int),
        parse_bounds(r@, input@.len() as int, pos as int),
{
    match be_i32(input, pos) {
        Parsed::Done(p1, replica_id) => match kafka_array(
            input,
            p1,
            &topic_offset,
            Ghost(topic_offset_elem()),
        ) {
            Parsed::Done(n, topics) => Parsed::Done(n, OffsetRequest { replica_id, topics }),
            Parsed::Incomplete(k) => Parsed::Incomplete((p1 - pos) + k),
            Parsed::Fail(e) => Parsed::Fail(e),
        },
        Parsed::Incomplete(k) => Parsed::Incomplete(k),
        Parsed::Fail(e) => Parsed::Fail(e),
    }
}

} // verus!
