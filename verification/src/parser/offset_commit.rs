//! The offset-commit request grammar, in its three mutually exclusive
//! versioned shapes: v0 is bare, v1 adds a generation id, consumer id and
//! per-partition timestamp, v2 adds a retention time while its partitions
//! revert to the v0 shape. Any other version is rejected.

use vstd::prelude::*;

use crate::errors::InputError;
use crate::parser::primitive::{
    be_i32, be_i64, kafka_array, kafka_string, lemma_vec_u8_deep_view, parse_bounds, spec_be_i32,
    spec_be_i64, spec_kafka_array, spec_kafka_string, wire_pos, Parsed, SpecParsed,
};

verus! {

#[derive(Debug, PartialEq)]
pub struct PartitionOffsetCommitV0 {
    pub partition: i32,
    pub offset: i64,
    pub metadata: Vec<u8>,
}

#[verifier::ext_equal]
pub struct PartitionOffsetCommitV0V {
    pub partition: i32,
    pub offset: i64,
    pub metadata: Seq<u8>,
}

impl DeepView for PartitionOffsetCommitV0 {
    type V = PartitionOffsetCommitV0V;

    open spec fn deep_view(&self) -> PartitionOffsetCommitV0V {
        PartitionOffsetCommitV0V {
            partition: self.partition,
            offset: self.offset,
            metadata: self.metadata@,
        }
    }
}

#[derive(Debug, PartialEq)]
pub struct TopicOffsetCommitV0 {
    pub topic_name: Vec<u8>,
    pub partitions: Vec<PartitionOffsetCommitV0>,
}

#[verifier::ext_equal]
pub struct TopicOffsetCommitV0V {
    pub topic_name: Seq<u8>,
    pub partitions: Seq<PartitionOffsetCommitV0V>,
}

impl DeepView for TopicOffsetCommitV0 {
    type V = TopicOffsetCommitV0V;

    open spec fn deep_view(&self) -> TopicOffsetCommitV0V {
        TopicOffsetCommitV0V {
            topic_name: self.topic_name@,
            partitions: self.partitions.deep_view(),
        }
    }
}

#[derive(Debug, PartialEq)]
pub struct OffsetCommitRequestV0 {
    pub consumer_group: Vec<u8>,
    pub topics: Vec<TopicOffsetCommitV0>,
}

#[verifier::ext_equal]
pub struct OffsetCommitRequestV0V {
    pub consumer_group: Seq<u8>,
    pub topics: Seq<TopicOffsetCommitV0V>,
}

impl DeepView for OffsetCommitRequestV0 {
    type V = OffsetCommitRequestV0V;

    open spec fn deep_view(&self) -> OffsetCommitRequestV0V {
        OffsetCommitRequestV0V {
            consumer_group: self.consumer_group@,
            topics: self.topics.deep_view(),
        }
    }
}

#[derive(Debug, PartialEq)]
pub struct PartitionOffsetCommitV1 {
    pub partition: i32,
    pub offset: i64,
    pub timestamp: i64,
    pub metadata: Vec<u8>,
}

#[verifier::ext_equal]
pub struct PartitionOffsetCommitV1V {
    pub partition: i32,
    pub offset: i64,
    pub timestamp: i64,
    pub metadata: Seq<u8>,
}

impl DeepView for PartitionOffsetCommitV1 {
    type V = PartitionOffsetCommitV1V;

    open spec fn deep_view(&self) -> PartitionOffsetCommitV1V {
        PartitionOffsetCommitV1V {
            partition: self.partition,
            offset: self.offset,
            timestamp: self.timestamp,
            metadata: self.metadata@,
        }
    }
}

#[derive(Debug, PartialEq)]
pub struct TopicOffsetCommitV1 {
    pub topic_name: Vec<u8>,
    pub partitions: Vec<PartitionOffsetCommitV1>,
}

#[verifier::ext_equal]
pub struct TopicOffsetCommitV1V {
    pub topic_name: Seq<u8>,
    pub partitions: Seq<PartitionOffsetCommitV1V>,
}

impl DeepView for TopicOffsetCommitV1 {
    type V = TopicOffsetCommitV1V;

    open spec fn deep_view(&self) -> TopicOffsetCommitV1V {
        TopicOffsetCommitV1V {
            topic_name: self.topic_name@,
            partitions: self.partitions.deep_view(),
        }
    }
}

#[derive(Debug, PartialEq)]
pub struct OffsetCommitRequestV1 {
    pub consumer_group: Vec<u8>,
    pub consumer_group_generation_id: i32,
    pub consumer_id: Vec<u8>,
    pub topics: Vec<TopicOffsetCommitV1>,
}

#[verifier::ext_equal]
pub struct OffsetCommitRequestV1V {
    pub consumer_group: Seq<u8>,
    pub consumer_group_generation_id: i32,
    pub consumer_id: Seq<u8>,
    pub topics: Seq<TopicOffsetCommitV1V>,
}

impl DeepView for OffsetCommitRequestV1 {
    type V = OffsetCommitRequestV1V;

    open spec fn deep_view(&self) -> OffsetCommitRequestV1V {
        OffsetCommitRequestV1V {
            consumer_group: self.consumer_group@,
            consumer_group_generation_id: self.consumer_group_generation_id,
            consumer_id: self.consumer_id@,
            topics: self.topics.deep_view(),
        }
    }
}

#[derive(Debug, PartialEq)]
pub struct OffsetCommitRequestV2 {
    pub consumer_group: Vec<u8>,
    pub consumer_group_generation_id: i32,
    pub consumer_id: Vec<u8>,
    pub retention_time: i64,
    pub topics: Vec<TopicOffsetCommitV0>,
}

#[verifier::ext_equal]
pub struct OffsetCommitRequestV2V {
    pub consumer_group: Seq<u8>,
    pub consumer_group_generation_id: i32,
    pub consumer_id: Seq<u8>,
    pub retention_time: i64,
    pub topics: Seq<TopicOffsetCommitV0V>,
}

impl DeepView for OffsetCommitRequestV2 {
    type V = OffsetCommitRequestV2V;

    open spec fn deep_view(&self) -> OffsetCommitRequestV2V {
        OffsetCommitRequestV2V {
            consumer_group: self.consumer_group@,
            consumer_group_generation_id: self.consumer_group_generation_id,
            consumer_id: self.consumer_id@,
            retention_time: self.retention_time,
            topics: self.topics.deep_view(),
        }
    }
}

/// An offset-commit request in whichever of the three shapes its version
/// selected.
#[derive(Debug, PartialEq)]
pub enum OffsetCommitRequest {
    V0(OffsetCommitRequestV0),
    V1(OffsetCommitRequestV1),
    V2(OffsetCommitRequestV2),
}

#[verifier::ext_equal]
pub enum OffsetCommitRequestView {
    V0(OffsetCommitRequestV0V),
    V1(OffsetCommitRequestV1V),
    V2(OffsetCommitRequestV2V),
}

impl DeepView for OffsetCommitRequest {
    type V = OffsetCommitRequestView;

    open spec fn deep_view(&self) -> OffsetCommitRequestView {
        match self {
            OffsetCommitRequest::V0(r) => OffsetCommitRequestView::V0(r.deep_view()),
            OffsetCommitRequest::V1(r) => OffsetCommitRequestView::V1(r.deep_view()),
            OffsetCommitRequest::V2(r) => OffsetCommitRequestView::V2(r.deep_view()),
        }
    }
}

/// One v0 partition: partition id, offset, metadata string.
pub open spec fn spec_partition_offset_commit_v0(s: Seq<u8>, pos: int) -> SpecParsed<
    PartitionOffsetCommitV0V,
> {
    match spec_be_i32(s, pos) {
        SpecParsed::Done(p1, partition) => match spec_be_i64(s, p1) {
            SpecParsed::Done(p2, offset) => match spec_kafka_string(s, p2) {
                SpecParsed::Done(n, metadata) => SpecParsed::Done(
                    n,
                    PartitionOffsetCommitV0V { partition, offset, metadata },
                ),
                SpecParsed::Incomplete(k) => SpecParsed::Incomplete((p2 - pos) + k),
                SpecParsed::Fail(e) => SpecParsed::Fail(e),
            },
            SpecParsed::Incomplete(k) => SpecParsed::Incomplete((p1 - pos) + k),
            SpecParsed::Fail(e) => SpecParsed::Fail(e),
        },
        SpecParsed::Incomplete(k) => SpecParsed::Incomplete(k),
        SpecParsed::Fail(e) => SpecParsed::Fail(e),
    }
}

pub fn partition_offset_commit_v0(input: &Vec<u8>, pos: usize) -> (r: Parsed<
    PartitionOffsetCommitV0,
>)
    requires
        wire_pos(input@, pos as int),
    ensures
        r@ == spec_partition_offset_commit_v0(input@, pos as int),
        parse_bounds(r@, input@.len() as int, pos as int),
{
    broadcast use lemma_vec_u8_deep_view;

    match be_i32(input, pos) {
        Parsed::Done(p1, partition) => match be_i64(input, p1) {
            Parsed::Done(p2, offset) => match kafka_string(input, p2) {
                Parsed::Done(n, metadata) => Parsed::Done(
                    n,
                    PartitionOffsetCommitV0 { partition, offset, metadata },
                ),
                Parsed::Incomplete(k) => Parsed::Incomplete((p2 - pos) + k),
                Parsed::Fail(e) => Parsed::Fail(e),
            },
            Parsed::Incomplete(k) => Parsed::Incomplete((p1 - pos) + k),
            Parsed::Fail(e) => Parsed::Fail(e),
        },
        Parsed::Incomplete(k) => Parsed::Incomplete(k),
        Parsed::Fail(e) => Parsed::Fail(e),
    }
}

pub open spec fn poc_v0_elem() -> spec_fn(Seq<u8>, int) -> SpecParsed<PartitionOffsetCommitV0V> {
    |ss: Seq<u8>, pp: int| spec_partition_offset_commit_v0(ss, pp)
}

/// One v0 topic.
pub open spec fn spec_topic_offset_commit_v0(s: Seq<u8>, pos: int) -> SpecParsed<
    TopicOffsetCommitV0V,
> {
    match spec_kafka_string(s, pos) {
        SpecParsed::Done(p1, name) => match spec_kafka_array(s, p1, poc_v0_elem()) {
            SpecParsed::Done(n, parts) => SpecParsed::Done(
                n,
                TopicOffsetCommitV0V { topic_name: name, partitions: parts },
            ),
            SpecParsed::Incomplete(k) => SpecParsed::Incomplete((p1 - pos) + k),
            SpecParsed::Fail(e) => SpecParsed::Fail(e),
        },
        SpecParsed::Incomplete(k) => SpecParsed::Incomplete(k),
        SpecParsed::Fail(e) => SpecParsed::Fail(e),
    }
}

pub fn topic_offset_commit_v0(input: &Vec<u8>, pos: usize) -> (r: Parsed<TopicOffsetCommitV0>)
    requires
        wire_pos(input@, pos as int),
    ensures
        r@ == spec_topic_offset_commit_v0(input@, pos as int),
        parse_bounds(r@, input@.len() as int, pos as int),
{
    broadcast use lemma_vec_u8_deep_view;

    match kafka_string(input, pos) {
        Parsed::Done(p1, topic_name) => match kafka_array(
            input,
            p1,
            &partition_offset_commit_v0,
            Ghost(poc_v0_elem()),
        ) {
            Parsed::Done(n, partitions) => Parsed::Done(
                n,
                TopicOffsetCommitV0 { topic_name, partitions },
            ),
            Parsed::Incomplete(k) => Parsed::Incomplete((p1 - pos) + k),
            Parsed::Fail(e) => Parsed::Fail(e),
        },
        Parsed::Incomplete(k) => Parsed::Incomplete(k),
        Parsed::Fail(e) => Parsed::Fail(e),
    }
}

pub open spec fn toc_v0_elem() -> spec_fn(Seq<u8>, int) -> SpecParsed<TopicOffsetCommitV0V> {
    |ss: Seq<u8>, pp: int| spec_topic_offset_commit_v0(ss, pp)
}

/// A whole v0 offset-commit request.
pub open spec fn spec_offset_commit_request_v0(s: Seq<u8>, pos: int) -> SpecParsed<
    OffsetCommitRequestV0V,
> {
    match spec_kafka_string(s, pos) {
        SpecParsed::Done(p1, consumer_group) => match spec_kafka_array(s, p1, toc_v0_elem()) {
            SpecParsed::Done(n, topics) => SpecParsed::Done(
                n,
                OffsetCommitRequestV0V { consumer_group, topics },
            ),
            SpecParsed::Incomplete(k) => SpecParsed::Incomplete((p1 - pos) + k),
            SpecParsed::Fail(e) => SpecParsed::Fail(e),
        },
        SpecParsed::Incomplete(k) => SpecParsed::Incomplete(k),
        SpecParsed::Fail(e) => SpecParsed::Fail(e),
    }
}

pub fn offset_commit_request_v0(input: &Vec<u8>, pos: usize) -> (r: Parsed<OffsetCommitRequestV0>)
    requires
        wire_pos(input@, pos as int),
    ensures
        r@ == spec_offset_commit_request_v0(input@, pos as int),
        parse_bounds(r@, input@.len() as int, pos as int),
{
    broadcast use lemma_vec_u8_deep_view;

    match kafka_string(input, pos) {
        Parsed::Done(p1, consumer_group) => match kafka_array(
            input,
            p1,
            &topic_offset_commit_v0,
            Ghost(toc_v0_elem()),
        ) {
            Parsed::Done(n, topics) => Parsed::Done(
                n,
                OffsetCommitRequestV0 { consumer_group, topics },
            ),
            Parsed::Incomplete(k) => Parsed::Incomplete((p1 - pos) + k),
            Parsed::Fail(e) => Parsed::Fail(e),
        },
        Parsed::Incomplete(k) => Parsed::Incomplete(k),
        Parsed::Fail(e) => Parsed::Fail(e),
    }
}

/// One v1 partition: partition id, offset, timestamp, metadata string.
pub open spec fn spec_partition_offset_commit_v1(s: Seq<u8>, pos: int) -> SpecParsed<
    PartitionOffsetCommitV1V,
> {
    match spec_be_i32(s, pos) {
        SpecParsed::Done(p1, partition) => match spec_be_i64(s, p1) {
            SpecParsed::Done(p2, offset) => match spec_be_i64(s, p2) {
                SpecParsed::Done(p3, timestamp) => match spec_kafka_string(s, p3) {
                    SpecParsed::Done(n, metadata) => SpecParsed::Done(
                        n,
                        PartitionOffsetCommitV1V { partition, offset, timestamp, metadata },
                    ),
                    SpecParsed::Incomplete(k) => SpecParsed::Incomplete((p3 - pos) + k),
                    SpecParsed::Fail(e) => SpecParsed::Fail(e),
                },
                SpecParsed::Incomplete(k) => SpecParsed::Incomplete((p2 - pos) + k),
                SpecParsed::Fail(e) => SpecParsed::Fail(e),
            },
            SpecParsed::Incomplete(k) => SpecParsed::Incomplete((p1 - pos) + k),
            SpecParsed::Fail(e) => SpecParsed::Fail(e),
        },
        SpecParsed::Incomplete(k) => SpecParsed::Incomplete(k),
        SpecParsed::Fail(e) => SpecParsed::Fail(e),
    }
}

pub fn partition_offset_commit_v1(input: &Vec<u8>, pos: usize) -> (r: Parsed<
    PartitionOffsetCommitV1,
>)
    requires
        wire_pos(input@, pos as int),
    ensures
        r@ == spec_partition_offset_commit_v1(input@, pos as int),
        parse_bounds(r@, input@.len() as int, pos as int),
{
    broadcast use lemma_vec_u8_deep_view;

    match be_i32(input, pos) {
        Parsed::Done(p1, partition) => match be_i64(input, p1) {
            Parsed::Done(p2, offset) => match be_i64(input, p2) {
                Parsed::Done(p3, timestamp) => match kafka_string(input, p3) {
                    Parsed::Done(n, metadata) => Parsed::Done(
                        n,
                        PartitionOffsetCommitV1 { partition, offset, timestamp, metadata },
                    ),
                    Parsed::Incomplete(k) => Parsed::Incomplete((p3 - pos) + k),
                    Parsed::Fail(e) => Parsed::Fail(e),
                },
                Parsed::Incomplete(k) => Parsed::Incomplete((p2 - pos) + k),
                Parsed::Fail(e) => Parsed::Fail(e),
            },
            Parsed::Incomplete(k) => Parsed::Incomplete((p1 - pos) + k),
            Parsed::Fail(e) => Parsed::Fail(e),
        },
        Parsed::Incomplete(k) => Parsed::Incomplete(k),
        Parsed::Fail(e) => Parsed::Fail(e),
    }
}

pub open spec fn poc_v1_elem() -> spec_fn(Seq<u8>, int) -> SpecParsed<PartitionOffsetCommitV1V> {
    |ss: Seq<u8>, pp: int| spec_partition_offset_commit_v1(ss, pp)
}

/// One v1 topic.
pub open spec fn spec_topic_offset_commit_v1(s: Seq<u8>, pos: int) -> SpecParsed<
    TopicOffsetCommitV1V,
> {
    match spec_kafka_string(s, pos) {
        SpecParsed::Done(p1, name) => match spec_kafka_array(s, p1, poc_v1_elem()) {
            SpecParsed::Done(n, parts) => SpecParsed::Done(
                n,
                TopicOffsetCommitV1V { topic_name: name, partitions: parts },
            ),
            SpecParsed::Incomplete(k) => SpecParsed::Incomplete((p1 - pos) + k),
            SpecParsed::Fail(e) => SpecParsed::Fail(e),
        },
        SpecParsed::Incomplete(k) => SpecParsed::Incomplete(k),
        SpecParsed::Fail(e) => SpecParsed::Fail(e),
    }
}

pub fn topic_offset_commit_v1(input: &Vec<u8>, pos: usize) -> (r: Parsed<TopicOffsetCommitV1>)
    requires
        wire_pos(input@, pos as int),
    ensures
        r@ == spec_topic_offset_commit_v1(input@, pos as int),
        parse_bounds(r@, input@.len() as int, pos as int),
{
    broadcast use lemma_vec_u8_deep_view;

    match kafka_string(input, pos) {
        Parsed::Done(p1, topic_name) => match kafka_array(
            input,
            p1,
            &partition_offset_commit_v1,
            Ghost(poc_v1_elem()),
        ) {
            Parsed::Done(n, partitions) => Parsed::Done(
                n,
                TopicOffsetCommitV1 { topic_name, partitions },
            ),
            Parsed::Incomplete(k) => Parsed::Incomplete((p1 - pos) + k),
            Parsed::Fail(e) => Parsed::Fail(e),
        },
        Parsed::Incomplete(k) => Parsed::Incomplete(k),
        Parsed::Fail(e) => Parsed::Fail(e),
    }
}

pub open spec fn toc_v1_elem() -> spec_fn(Seq<u8>, int) -> SpecParsed<TopicOffsetCommitV1V> {
    |ss: Seq<u8>, pp: int| spec_topic_offset_commit_v1(ss, pp)
}

/// A whole v1 offset-commit request.
pub open spec fn spec_offset_commit_request_v1(s: Seq<u8>, pos: int) -> SpecParsed<
    OffsetCommitRequestV1V,
> {
    match spec_kafka_string(s, pos) {
        SpecParsed::Done(p1, consumer_group) => match spec_be_i32(s, p1) {
            SpecParsed::Done(p2, generation_id) => match spec_kafka_string(s, p2) {
                SpecParsed::Done(p3, consumer_id) => match spec_kafka_array(
                    s,
                    p3,
                    toc_v1_elem(),
                ) {
                    SpecParsed::Done(n, topics) => SpecParsed::Done(
                        n,
                        OffsetCommitRequestV1V {
                            consumer_group,
                            consumer_group_generation_id: generation_id,
                            consumer_id,
                            topics,
                        },
                    ),
                    SpecParsed::Incomplete(k) => SpecParsed::Incomplete((p3 - pos) + k),
                    SpecParsed::Fail(e) => SpecParsed::Fail(e),
                },
                SpecParsed::Incomplete(k) => SpecParsed::Incomplete((p2 - pos) + k),
                SpecParsed::Fail(e) => SpecParsed::Fail(e),
            },
            SpecParsed::Incomplete(k) => SpecParsed::Incomplete((p1 - pos) + k),
            SpecParsed::Fail(e) => SpecParsed::Fail(e),
        },
        SpecParsed::Incomplete(k) => SpecParsed::Incomplete(k),
        SpecParsed::Fail(e) => SpecParsed::Fail(e),
    }
}

pub fn offset_commit_request_v1(input: &Vec<u8>, pos: usize) -> (r: Parsed<OffsetCommitRequestV1>)
    requires
        wire_pos(input@, pos as int),
    ensures
        r@ == spec_offset_commit_request_v1(input@, pos as int),
        parse_bounds(r@, input@.len() as int, pos as int),
{
    broadcast use lemma_vec_u8_deep_view;

    match kafka_string(input, pos) {
        Parsed::Done(p1, consumer_group) => match be_i32(input, p1) {
            Parsed::Done(p2, generation_id) => match kafka_string(input, p2) {
                Parsed::Done(p3, consumer_id) => match kafka_array(
                    input,
                    p3,
                    &topic_offset_commit_v1,
                    Ghost(toc_v1_elem()),
                ) {
                    Parsed::Done(n, topics) => Parsed::Done(
                        n,
                        OffsetCommitRequestV1 {
                            consumer_group,
                            consumer_group_generation_id: generation_id,
                            consumer_id,
                            topics,
                        },
                    ),
                    Parsed::Incomplete(k) => Parsed::Incomplete((p3 - pos) + k),
                    Parsed::Fail(e) => Parsed::Fail(e),
                },
                Parsed::Incomplete(k) => Parsed::Incomplete((p2 - pos) + k),
                Parsed::Fail(e) => Parsed::Fail(e),
            },
            Parsed::Incomplete(k) => Parsed::Incomplete((p1 - pos) + k),
            Parsed::Fail(e) => Parsed::Fail(e),
        },
        Parsed::Incomplete(k) => Parsed::Incomplete(k),
        Parsed::Fail(e) => Parsed::Fail(e),
    }
}

/// A whole v2 offset-commit request: v1's head plus a retention time, with v0
/// topics.
pub open spec fn spec_offset_commit_request_v2(s: Seq<u8>, pos: int) -> SpecParsed<
    OffsetCommitRequestV2V,
> {
    match spec_kafka_string(s, pos) {
        SpecParsed::Done(p1, consumer_group) => match spec_be_i32(s, p1) {
            SpecParsed::Done(p2, generation_id) => match spec_kafka_string(s, p2) {
                SpecParsed::Done(p3, consumer_id) => match spec_be_i64(s, p3) {
                    SpecParsed::Done(p4, retention_time) => match spec_kafka_array(
                        s,
                        p4,
                        toc_v0_elem(),
                    ) {
                        SpecParsed::Done(n, topics) => SpecParsed::Done(
                            n,
                            OffsetCommitRequestV2V {
                                consumer_group,
                                consumer_group_generation_id: generation_id,
                                consumer_id,
                                retention_time,
                                topics,
                            },
                        ),
                        SpecParsed::Incomplete(k) => SpecParsed::Incomplete((p4 - pos) + k),
                        SpecParsed::Fail(e) => SpecParsed::Fail(e),
                    },
                    SpecParsed::Incomplete(k) => SpecParsed::Incomplete((p3 - pos) + k),
                    SpecParsed::Fail(e) => SpecParsed::Fail(e),
                },
                SpecParsed::Incomplete(k) => SpecParsed::Incomplete((p2 - pos) + k),
                SpecParsed::Fail(e) => SpecParsed::Fail(e),
            },
            SpecParsed::Incomplete(k) => SpecParsed::Incomplete((p1 - pos) + k),
            SpecParsed::Fail(e) => SpecParsed::Fail(e),
        },
        SpecParsed::Incomplete(k) => SpecParsed::Incomplete(k),
        SpecParsed::Fail(e) => SpecParsed::Fail(e),
    }
}

pub fn offset_commit_request_v2(input: &Vec<u8>, pos: usize) -> (r: Parsed<OffsetCommitRequestV2>)
    requires
        wire_pos(input@, pos as int),
    ensures
        r@ == spec_offset_commit_request_v2(input@, pos as int),
        parse_bounds(r@, input@.len() as int, pos as int),
{
    broadcast use lemma_vec_u8_deep_view;

    match kafka_string(input, pos) {
        Parsed::Done(p1, consumer_group) => match be_i32(input, p1) {
            Parsed::Done(p2, generation_id) => match kafka_string(input, p2) {
                Parsed::Done(p3, consumer_id) => match be_i64(input, p3) {
                    Parsed::Done(p4, retention_time) => match kafka_array(
                        input,
                        p4,
                        &topic_offset_commit_v0,
                        Ghost(toc_v0_elem()),
                    ) {
                        Parsed::Done(n, topics) => Parsed::Done(
                            n,
                            OffsetCommitRequestV2 {
                                consumer_group,
                                consumer_group_generation_id: generation_id,
                                consumer_id,
                                retention_time,
                                topics,
                            },
                        ),
                        Parsed::Incomplete(k) => Parsed::Incomplete((p4 - pos) + k),
                        Parsed::Fail(e) => Parsed::Fail(e),
                    },
                    Parsed::Incomplete(k) => Parsed::Incomplete((p3 - pos) + k),
                    Parsed::Fail(e) => Parsed::Fail(e),
                },
                Parsed::Incomplete(k) => Parsed::Incomplete((p2 - pos) + k),
                Parsed::Fail(e) => Parsed::Fail(e),
            },
            Parsed::Incomplete(k) => Parsed::Incomplete((p1 - pos) + k),
            Parsed::Fail(e) => Parsed::Fail(e),
        },
        Parsed::Incomplete(k) => Parsed::Incomplete(k),
        Parsed::Fail(e) => Parsed::Fail(e),
    }
}

/// An offset-commit request in the shape its version selects; versions other
/// than 0, 1 and 2 are `ParserError`.
pub open spec fn spec_offset_commit_request(s: Seq<u8>, pos: int, api_version: i16) -> SpecParsed<
    OffsetCommitRequestView,
> {
    if api_version == 0 {
        match spec_offset_commit_request_v0(s, pos) {
            SpecParsed::Done(n, r) => SpecParsed::Done(n, OffsetCommitRequestView::V0(r)),
            SpecParsed::Incomplete(k) => SpecParsed::Incomplete(k),
            SpecParsed::Fail(e) => SpecParsed::Fail(e),
        }
    } else if api_version == 1 {
        match spec_offset_commit_request_v1(s, pos) {
            SpecParsed::Done(n, r) => SpecParsed::Done(n, OffsetCommitRequestView::V1(r)),
            SpecParsed::Incomplete(k) => SpecParsed::Incomplete(k),
            SpecParsed::Fail(e) => SpecParsed::Fail(e),
        }
    } else if api_version == 2 {
        match spec_offset_commit_request_v2(s, pos) {
            SpecParsed::Done(n, r) => SpecParsed::Done(n, OffsetCommitRequestView::V2(r)),
            SpecParsed::Incomplete(k) => SpecParsed::Incomplete(k),
            SpecParsed::Fail(e) => SpecParsed::Fail(e),
        }
    } else {
        SpecParsed::Fail(InputError::ParserError)
    }
}

pub fn offset_commit_request(input: &Vec<u8>, pos: usize, api_version: i16) -> (r: Parsed<
    OffsetCommitRequest,
>)
    requires
        wire_pos(input@, pos as int),
    ensures
        r@ == spec_offset_commit_request(input@, pos as int, api_version),
        parse_bounds(r@, input@.len() as int, pos as int),
{
    if api_version == 0 {
        match offset_commit_request_v0(input, pos) {
            Parsed::Done(n, r) => Parsed::Done(n, OffsetCommitRequest::V0(r)),
            Parsed::Incomplete(k) => Parsed::Incomplete(k),
            Parsed::Fail(e) => Parsed::Fail(e),
        }
    } else if api_version == 1 {
        match offset_commit_request_v1(input, pos) {
            Parsed::Done(n, r) => Parsed::Done(n, OffsetCommitRequest::V1(r)),
            Parsed::Incomplete(k) => Parsed::Incomplete(k),
            Parsed::Fail(e) => Parsed::Fail(e),
        }
    } else if api_version == 2 {
        match offset_commit_request_v2(input, pos) {
            Parsed::Done(n, r) => Parsed::Done(n, OffsetCommitRequest::V2(r)),
            Parsed::Incomplete(k) => Parsed::Incomplete(k),
            Parsed::Fail(e) => Parsed::Fail(e),
        }
    } else {
        Parsed::Fail(InputError::ParserError)
    }
}

} // verus!
