//! The fetch request grammar: replica id, wait and byte bounds, then topics
//! with per-partition fetch positions.

use vstd::prelude::*;

use crate::parser::primitive::{
    be_i32, be_i64, kafka_array, kafka_string, lemma_vec_u8_deep_view, parse_bounds, spec_be_i32,
    spec_be_i64, spec_kafka_array, spec_kafka_string, wire_pos, Parsed, SpecParsed,
};

verus! {

#[derive(Debug, PartialEq)]
pub struct PartitionFetch {
    pub partition: i32,
    pub fetch_offset: i64,
    pub max_bytes: i32,
}

impl DeepView for PartitionFetch {
    type V = PartitionFetch;

    open spec fn deep_view(&self) -> PartitionFetch {
        *self
    }
}

#[derive(Debug, PartialEq)]
pub struct TopicFetch {
    pub topic_name: Vec<u8>,
    pub partitions: Vec<PartitionFetch>,
}

#[verifier::ext_equal]
pub struct TopicFetchV {
    pub topic_name: Seq<u8>,
    pub partitions: Seq<PartitionFetch>,
}

impl DeepView for TopicFetch {
    type V = TopicFetchV;

    open spec fn deep_view(&self) -> TopicFetchV {
        TopicFetchV { topic_name: self.topic_name@, partitions: self.partitions.deep_view() }
    }
}

#[derive(Debug, PartialEq)]
pub struct FetchRequest {
    pub replica_id: i32,
    pub max_wait_time: i32,
    pub min_bytes: i32,
    pub topics: Vec<TopicFetch>,
}

#[verifier::ext_equal]
pub struct FetchRequestV {
    pub replica_id: i32,
    pub max_wait_time: i32,
    pub min_bytes: i32,
    pub topics: Seq<TopicFetchV>,
}

impl DeepView for FetchRequest {
    type V = FetchRequestV;

    open spec fn deep_view(&self) -> FetchRequestV {
        FetchRequestV {
            replica_id: self.replica_id,
            max_wait_time: self.max_wait_time,
            min_bytes: self.min_bytes,
            topics: self.topics.deep_view(),
        }
    }
}

/// One partition of a fetch: partition id, fetch offset, byte bound.
pub open spec fn spec_partition_fetch(s: Seq<u8>, pos: int) -> SpecParsed<PartitionFetch> {
    match spec_be_i32(s, pos) {
        SpecParsed::Done(p1, partition) => match spec_be_i64(s, p1) {
            SpecParsed::Done(p2, fetch_offset) => match spec_be_i32(s, p2) {
                SpecParsed::Done(n, max_bytes) => SpecParsed::Done(
                    n,
                    PartitionFetch { partition, fetch_offset, max_bytes },
                ),
                SpecParsed::Incomplete(k) => SpecParsed::Incomplete((p2 - pos) + k),
                SpecParsed::Fail(e) => SpecParsed::Fail(e),
            },
            SpecParsed::Incomplete(k) => SpecParsed::Incomplete((p1 - pos) + k),
            SpecParsed::Fail(e) => SpecParsed::Fail(e),
        },
        SpecParsed::Incomplete(k) => SpecParsed::Incomplete(k),
        SpecParsed::Fail(e) => SpecParsed::Fail(e),
    }
}

pub fn partition_fetch(input: &Vec<u8>, pos: usize) -> (r: Parsed<PartitionFetch>)
    requires
        wire_pos(input@, pos as int),
    ensures
        r@ == spec_partition_fetch(input@, pos as int),
        parse_bounds(r@, input@.len() as int, pos as int),
{
    match be_i32(input, pos) {
        Parsed::Done(p1, partition) => match be_i64(input, p1) {
            Parsed::Done(p2, fetch_offset) => match be_i32(input, p2) {
                Parsed::Done(n, max_bytes) => Parsed::Done(
                    n,
                    PartitionFetch { partition, fetch_offset, max_bytes },
                ),
                Parsed::Incomplete(k) => Parsed::Incomplete((p2 - pos) + k),
                Parsed::Fail(e) => Parsed::Fail(e),
            },
            Parsed::Incomplete(k) => Parsed::Incomplete((p1 - pos) + k),
            Parsed::Fail(e) => Parsed::Fail(e),
        },
        Parsed::Incomplete(k) => Parsed::Incomplete(k),
        Parsed::Fail(e) => Parsed::Fail(e),
    }
}

/// The partition-fetch grammar as a value, for array decoding.
pub open spec fn partition_fetch_elem() -> spec_fn(Seq<u8>, int) -> SpecParsed<PartitionFetch> {
    |ss: Seq<u8>, pp: int| spec_partition_fetch(ss, pp)
}

/// One topic of a fetch: its name, then the partition array.
pub open spec fn spec_topic_fetch(s: Seq<u8>, pos: int) -> SpecParsed<TopicFetchV> {
    match spec_kafka_string(s, pos) {
        SpecParsed::Done(p1, name) => match spec_kafka_array(s, p1, partition_fetch_elem()) {
            SpecParsed::Done(n, parts) => SpecParsed::Done(
                n,
                TopicFetchV { topic_name: name, partitions: parts },
            ),
            SpecParsed::Incomplete(k) => SpecParsed::Incomplete((p1 - pos) + k),
            SpecParsed::Fail(e) => SpecParsed::Fail(e),
        },
        SpecParsed::Incomplete(k) => SpecParsed::Incomplete(k),
        SpecParsed::Fail(e) => SpecParsed::Fail(e),
    }
}

pub fn topic_fetch(input: &Vec<u8>, pos: usize) -> (r: Parsed<TopicFetch>)
    requires
        wire_pos(input@, pos as int),
    ensures
        r@ == spec_topic_fetch(input@, pos as int),
        parse_bounds(r@, input@.len() as int, pos as int),
{
    broadcast use lemma_vec_u8_deep_view;

    match kafka_string(input, pos) {
        Parsed::Done(p1, topic_name) => match kafka_array(
            input,
            p1,
            &partition_fetch,
            Ghost(partition_fetch_elem()),
        ) {
            Parsed::Done(n, partitions) => Parsed::Done(n, TopicFetch { topic_name, partitions }),
            Parsed::Incomplete(k) => Parsed::Incomplete((p1 - pos) + k),
            Parsed::Fail(e) => Parsed::Fail(e),
        },
        Parsed::Incomplete(k) => Parsed::Incomplete(k),
        Parsed::Fail(e) => Parsed::Fail(e),
    }
}

/// The topic-fetch grammar as a value, for array decoding.
pub open spec fn topic_fetch_elem() -> spec_fn(Seq<u8>, int) -> SpecParsed<TopicFetchV> {
    |ss: Seq<u8>, pp: int| spec_topic_fetch(ss, pp)
}

/// A whole fetch request.
pub open spec fn spec_fetch_request(s: Seq<u8>, pos: int) -> SpecParsed<FetchRequestV> {
    match spec_be_i32(s, pos) {
        SpecParsed::Done(p1, replica_id) => match spec_be_i32(s, p1) {
            SpecParsed::Done(p2, max_wait_time) => match spec_be_i32(s, p2) {
                SpecParsed::Done(p3, min_bytes) => match spec_kafka_array(
                    s,
                    p3,
                    topic_fetch_elem(),
                ) {
                    SpecParsed::Done(n, topics) => SpecParsed::Done(
                        n,
                        FetchRequestV { replica_id, max_wait_time, min_bytes, topics },
                    ),
                    SpecParsed::Incomplete(k) => SpecParsed::Incomplete((p3 - pos) + k),
                    SpecParsed::Fail(e) => SpecParsed::Fail(e),
                },
                SpecParsed::Incomplete(k) => SpecParsed::Incomplete((p2 - pos) + k),
                SpecParsed::Fail(e) => SpecParsed::Fail(e),
            },
            SpecParsed::Incomplete(k) => SpecParsed::Incomplete((p1 - pos) + k),
            SpecParsed::Fail(e) => SpecParsed::Fail(e),
        },
        SpecParsed::Incomplete(k) => SpecParsed::Incomplete(k),
        SpecParsed::Fail(e) => SpecParsed::Fail(e),
    }
}

pub fn fetch_request(input: &Vec<u8>, pos: usize) -> (r: Parsed<FetchRequest>)
    requires
        wire_pos(input@, pos as int),
    ensures
        r@ == spec_fetch_request(input@, pos as int),
        parse_bounds(r@, input@.len() as int, pos as int),
{
    match be_i32(input, pos) {
        Parsed::Done(p1, replica_id) => match be_i32(input, p1) {
            Parsed::Done(p2, max_wait_time) => match be_i32(input, p2) {
                Parsed::Done(p3, min_bytes) => match kafka_array(
                    input,
                    p3,
                    &topic_fetch,
                    Ghost(topic_fetch_elem()),
                ) {
                    Parsed::Done(n, topics) => Parsed::Done(
                        n,
                        FetchRequest { replica_id, max_wait_time, min_bytes, topics },
                    ),
                    Parsed::Incomplete(k) => Parsed::Incomplete((p3 - pos) + k),
                    Parsed::Fail(e) => Parsed::Fail(e),
                },
                Parsed::Incomplete(k) => Parsed::Incomplete((p2 - pos) + k),
                Parsed::Fail(e) => Parsed::Fail(e),
            },
            Parsed::Incomplete(k) => Parsed::Incomplete((p1 - pos) + k),
            Parsed::Fail(e) => Parsed::Fail(e),
        },
        Parsed::Incomplete(k) => Parsed::Incomplete(k),
        Parsed::Fail(e) => Parsed::Fail(e),
    }
}

} // verus!
