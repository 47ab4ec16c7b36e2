//! The offset-fetch request grammar: consumer group, then topics with bare
//! partition ids.

use vstd::prelude::*;

use crate::parser::primitive::{
    be_i32, kafka_array, kafka_string, lemma_vec_u8_deep_view, parse_bounds, spec_be_i32,
    spec_kafka_array, spec_kafka_string, wire_pos, Parsed, SpecParsed,
};

verus! {

#[derive(Debug, PartialEq)]
pub struct PartitionOffsetFetch {
    pub partition: i32,
}

impl DeepView for PartitionOffsetFetch {
    type V = PartitionOffsetFetch;

    open spec fn deep_view(&self) -> PartitionOffsetFetch {
        *self
    }
}

#[derive(Debug, PartialEq)]
pub struct TopicOffsetFetch {
    pub topic_name: Vec<u8>,
    pub partitions: Vec<PartitionOffsetFetch>,
}

#[verifier::ext_equal]
pub struct TopicOffsetFetchV {
    pub topic_name: Seq<u8>,
    pub partitions: Seq<PartitionOffsetFetch>,
}

impl DeepView for TopicOffsetFetch {
    type V = TopicOffsetFetchV;

    open spec fn deep_view(&self) -> TopicOffsetFetchV {
        TopicOffsetFetchV { topic_name: self.topic_name@, partitions: self.partitions.deep_view() }
    }
}

#[derive(Debug, PartialEq)]
pub struct OffsetFetchRequest {
    pub consumer_group: Vec<u8>,
    pub topics: Vec<TopicOffsetFetch>,
}

#[verifier::ext_equal]
pub struct OffsetFetchRequestV {
    pub consumer_group: Seq<u8>,
    pub topics: Seq<TopicOffsetFetchV>,
}

impl DeepView for OffsetFetchRequest {
    type V = OffsetFetchRequestV;

    open spec fn deep_view(&self) -> OffsetFetchRequestV {
        OffsetFetchRequestV {
            consumer_group: self.consumer_group@,
            topics: self.topics.deep_view(),
        }
    }
}

/// One partition of an offset-fetch request: the bare partition id.
pub open spec fn spec_partition_offset_fetch(s: Seq<u8>, pos: int) -> SpecParsed<
    PartitionOffsetFetch,
> {
    match spec_be_i32(s, pos) {
        SpecParsed::Done(n, partition) => SpecParsed::Done(n, PartitionOffsetFetch { partition }),
        SpecParsed::Incomplete(k) => SpecParsed::Incomplete(k),
        SpecParsed::Fail(e) => SpecParsed::Fail(e),
    }
}

pub fn partition_offset_fetch(input: &Vec<u8>, pos: usize) -> (r: Parsed<PartitionOffsetFetch>)
    requires
        wire_pos(input@, pos as int),
    ensures
        r@ == spec_partition_offset_fetch(input@, pos as int),
        parse_bounds(r@, input@.len() as int, pos as int),
{
    match be_i32(input, pos) {
        Parsed::Done(n, partition) => Parsed::Done(n, PartitionOffsetFetch { partition }),
        Parsed::Incomplete(k) => Parsed::Incomplete(k),
        Parsed::Fail(e) => Parsed::Fail(e),
    }
}

/// The partition grammar as a value, for array decoding.
pub open spec fn partition_offset_fetch_elem() -> spec_fn(Seq<u8>, int) -> SpecParsed<
    PartitionOffsetFetch,
> {
    |ss: Seq<u8>, pp: int| spec_partition_offset_fetch(ss, pp)
}

/// One topic of an offset-fetch request.
pub open spec fn spec_topic_offset_fetch(s: Seq<u8>, pos: int) -> SpecParsed<TopicOffsetFetchV> {
    match spec_kafka_string(s, pos) {
        SpecParsed::Done(p1, name) => match spec_kafka_array(
            s,
            p1,
            partition_offset_fetch_elem(),
        ) {
            SpecParsed::Done(n, parts) => SpecParsed::Done(
                n,
                TopicOffsetFetchV { topic_name: name, partitions: parts },
            ),
            SpecParsed::Incomplete(k) => SpecParsed::Incomplete((p1 - pos) + k),
            SpecParsed::Fail(e) => SpecParsed::Fail(e),
        },
        SpecParsed::Incomplete(k) => SpecParsed::Incomplete(k),
        SpecParsed::Fail(e) => SpecParsed::Fail(e),
    }
}

pub fn topic_offset_fetch(input: &Vec<u8>, pos: usize) -> (r: Parsed<TopicOffsetFetch>)
    requires
        wire_pos(input@, pos as int),
    ensures
        r@ == spec_topic_offset_fetch(input@, pos as int),
        parse_bounds(r@, input@.len() as int, pos as int),
{
    broadcast use lemma_vec_u8_deep_view;

    match kafka_string(input, pos) {
        Parsed::Done(p1, topic_name) => match kafka_array(
            input,
            p1,
            &partition_offset_fetch,
            Ghost(partition_offset_fetch_elem()),
        ) {
            Parsed::Done(n, partitions) => Parsed::Done(
                n,
                TopicOffsetFetch { topic_name, partitions },
            ),
            Parsed::Incomplete(k) => Parsed::Incomplete((p1 - pos) + k),
            Parsed::Fail(e) => Parsed::Fail(e),
        },
        Parsed::Incomplete(k) => Parsed::Incomplete(k),
        Parsed::Fail(e) => Parsed::Fail(e),
    }
}

/// The topic grammar as a value, for array decoding.
pub open spec fn topic_offset_fetch_elem() -> spec_fn(Seq<u8>, int) -> SpecParsed<
    TopicOffsetFetchV,
> {
    |ss: Seq<u8>, pp: int| spec_topic_offset_fetch(ss, pp)
}

/// A whole offset-fetch request.
pub open spec fn spec_offset_fetch_request(s: Seq<u8>, pos: int) -> SpecParsed<
    OffsetFetchRequestV,
> {
    match spec_kafka_string(s, pos) {
        SpecParsed::Done(p1, consumer_group) => match spec_kafka_array(
            s,
            p1,
            topic_offset_fetch_elem(),
        ) {
            SpecParsed::Done(n, topics) => SpecParsed::Done(
                n,
                OffsetFetchRequestV { consumer_group, topics },
            ),
            SpecParsed::Incomplete(k) => SpecParsed::Incomplete((p1 - pos) + k),
            SpecParsed::Fail(e) => SpecParsed::Fail(e),
        },
        SpecParsed::Incomplete(k) => SpecParsed::Incomplete(k),
        SpecParsed::Fail(e) => SpecParsed::Fail(e),
    }
}

pub fn offset_fetch_request(input: &Vec<u8>, pos: usize) -> (r: Parsed<OffsetFetchRequest>)
    requires
        wire_pos(input@, pos as int),
    ensures
        r@ == spec_offset_fetch_request(input@, pos as int),
        parse_bounds(r@, input@.len() as int, pos as int),
{
    broadcast use lemma_vec_u8_deep_view;

    match kafka_string(input, pos) {
        Parsed::Done(p1, consumer_group) => match kafka_array(
            input,
            p1,
            &topic_offset_fetch,
            Ghost(topic_offset_fetch_elem()),
        ) {
            Parsed::Done(n, topics) => Parsed::Done(
                n,
                OffsetFetchRequest { consumer_group, topics },
            ),
            Parsed::Incomplete(k) => Parsed::Incomplete((p1 - pos) + k),
            Parsed::Fail(e) => Parsed::Fail(e),
        },
        Parsed::Incomplete(k) => Parsed::Incomplete(k),
        Parsed::Fail(e) => Parsed::Fail(e),
    }
}

} // verus!
