//! The metadata response serializer: brokers, then topics with per-partition
//! leadership and replica sets.

use vstd::prelude::*;

use crate::parser::primitive::{lemma_vec_deep_view, lemma_vec_u8_deep_view, seq_deep, MAX_WIRE};
use crate::responses::primitive::{
    i32_selem, lemma_ser_elems_snoc, lemma_ser_elems_whole, ser_i16, ser_i32, ser_i32_array,
    ser_kafka_string, spec_ser_elems, spec_ser_i16, spec_ser_i32, spec_ser_kafka_array,
    spec_ser_kafka_string,
};

verus! {

#[derive(Debug, PartialEq)]
pub struct Broker {
    pub node_id: i32,
    pub host: Vec<u8>,
    pub port: i32,
}

#[verifier::ext_equal]
pub struct BrokerV {
    pub node_id: i32,
    pub host: Seq<u8>,
    pub port: i32,
}

impl DeepView for Broker {
    type V = BrokerV;

    open spec fn deep_view(&self) -> BrokerV {
        BrokerV { node_id: self.node_id, host: self.host@, port: self.port }
    }
}

#[derive(Debug, PartialEq)]
pub struct PartitionMetadata {
    pub partition_error_code: i16,
    pub partition_id: i32,
    pub leader: i32,
    pub replicas: Vec<i32>,
    pub isr: Vec<i32>,
}

#[verifier::ext_equal]
pub struct PartitionMetadataV {
    pub partition_error_code: i16,
    pub partition_id: i32,
    pub leader: i32,
    pub replicas: Seq<i32>,
    pub isr: Seq<i32>,
}

impl DeepView for PartitionMetadata {
    type V = PartitionMetadataV;

    open spec fn deep_view(&self) -> PartitionMetadataV {
        PartitionMetadataV {
            partition_error_code: self.partition_error_code,
            partition_id: self.partition_id,
            leader: self.leader,
            replicas: self.replicas@,
            isr: self.isr@,
        }
    }
}

#[derive(Debug, PartialEq)]
pub struct TopicMetadata {
    pub topic_error_code: i16,
    pub topic_name: Vec<u8>,
    pub partitions: Vec<PartitionMetadata>,
}

#[verifier::ext_equal]
pub struct TopicMetadataV {
    pub topic_error_code: i16,
    pub topic_name: Seq<u8>,
    pub partitions: Seq<PartitionMetadataV>,
}

impl DeepView for TopicMetadata {
    type V = TopicMetadataV;

    open spec fn deep_view(&self) -> TopicMetadataV {
        TopicMetadataV {
            topic_error_code: self.topic_error_code,
            topic_name: self.topic_name@,
            partitions: self.partitions.deep_view(),
        }
    }
}

#[derive(Debug, PartialEq)]
pub struct MetadataResponse {
    pub brokers: Vec<Broker>,
    pub topics: Vec<TopicMetadata>,
}

#[verifier::ext_equal]
pub struct MetadataResponseV {
    pub brokers: Seq<BrokerV>,
    pub topics: Seq<TopicMetadataV>,
}

impl DeepView for MetadataResponse {
    type V = MetadataResponseV;

    open spec fn deep_view(&self) -> MetadataResponseV {
        MetadataResponseV { brokers: self.brokers.deep_view(), topics: self.topics.deep_view() }
    }
}

/// The bytes of one encoded broker.
pub open spec fn spec_ser_broker(b: BrokerV) -> Seq<u8> {
    spec_ser_i32(b.node_id) + spec_ser_kafka_string(b.host) + spec_ser_i32(b.port)
}

pub open spec fn broker_selem() -> spec_fn(BrokerV) -> Seq<u8> {
    |b: BrokerV| spec_ser_broker(b)
}

/// The bytes of one encoded partition's metadata.
pub open spec fn spec_ser_partition_metadata(pm: PartitionMetadataV) -> Seq<u8> {
    spec_ser_i16(pm.partition_error_code) + spec_ser_i32(pm.partition_id) + spec_ser_i32(pm.leader)
        + spec_ser_kafka_array(pm.replicas, i32_selem()) + spec_ser_kafka_array(
        pm.isr,
        i32_selem(),
    )
}

pub open spec fn partition_metadata_selem() -> spec_fn(PartitionMetadataV) -> Seq<u8> {
    |pm: PartitionMetadataV| spec_ser_partition_metadata(pm)
}

/// The bytes of one encoded topic's metadata.
pub open spec fn spec_ser_topic_metadata(tm: TopicMetadataV) -> Seq<u8> {
    spec_ser_i16(tm.topic_error_code) + spec_ser_kafka_string(tm.topic_name)
        + spec_ser_kafka_array(tm.partitions, partition_metadata_selem())
}

pub open spec fn topic_metadata_selem() -> spec_fn(TopicMetadataV) -> Seq<u8> {
    |tm: TopicMetadataV| spec_ser_topic_metadata(tm)
}

/// The bytes of a whole encoded metadata response.
pub open spec fn spec_ser_metadata_response(r: MetadataResponseV) -> Seq<u8> {
    spec_ser_kafka_array(r.brokers, broker_selem()) + spec_ser_kafka_array(
        r.topics,
        topic_metadata_selem(),
    )
}

pub open spec fn broker_wf(b: BrokerV) -> bool {
    b.host.len() <= 0x7fff
}

pub open spec fn partition_metadata_wf(pm: PartitionMetadataV) -> bool {
    pm.replicas.len() <= MAX_WIRE && pm.isr.len() <= MAX_WIRE
}

pub open spec fn topic_metadata_wf(tm: TopicMetadataV) -> bool {
    &&& tm.topic_name.len() <= 0x7fff
    &&& tm.partitions.len() <= MAX_WIRE
    &&& forall|j: int| 0 <= j < tm.partitions.len() ==> partition_metadata_wf(
        #[trigger] tm.partitions[j],
    )
}

pub open spec fn metadata_response_wf(r: MetadataResponseV) -> bool {
    &&& r.brokers.len() <= MAX_WIRE
    &&& forall|i: int| 0 <= i < r.brokers.len() ==> broker_wf(#[trigger] r.brokers[i])
    &&& r.topics.len() <= MAX_WIRE
    &&& forall|i: int| 0 <= i < r.topics.len() ==> topic_metadata_wf(#[trigger] r.topics[i])
}

/// Serializes one broker onto `output`.
pub fn ser_broker(b: &Broker, output: &mut Vec<u8>)
    requires
        broker_wf(b.deep_view()),
    ensures
        final(output)@ == old(output)@ + spec_ser_broker(b.deep_view()),
{
    ser_i32(b.node_id, output);
    ser_kafka_string(&b.host, output);
    ser_i32(b.port, output);
    proof {
        assert(output@ =~= old(output)@ + spec_ser_broker(b.deep_view()));
    }
}

/// Serializes one partition's metadata onto `output`.
pub fn ser_partition_metadata(pm: &PartitionMetadata, output: &mut Vec<u8>)
    requires
        partition_metadata_wf(pm.deep_view()),
    ensures
        final(output)@ == old(output)@ + spec_ser_partition_metadata(pm.deep_view()),
{
    ser_i16(pm.partition_error_code, output);
    ser_i32(pm.partition_id, output);
    ser_i32(pm.leader, output);
    ser_i32_array(&pm.replicas, output);
    ser_i32_array(&pm.isr, output);
    proof {
        assert(output@ =~= old(output)@ + spec_ser_partition_metadata(pm.deep_view()));
    }
}

fn ser_partition_metadata_array(parts: &Vec<PartitionMetadata>, output: &mut Vec<u8>)
    requires
        parts.deep_view().len() <= MAX_WIRE,
        forall|j: int|
            0 <= j < parts.deep_view().len() ==> partition_metadata_wf(
                #[trigger] parts.deep_view()[j],
            ),
    ensures
        final(output)@ == old(output)@ + spec_ser_kafka_array(
            parts.deep_view(),
            partition_metadata_selem(),
        ),
{
    broadcast use lemma_vec_deep_view;

    let ghost f = partition_metadata_selem();
    let ghost pv = parts.deep_view();
    ser_i32(parts.len() as i32, output);
    let mut idx: usize = 0;
    while idx < parts.len()
        invariant
            f == partition_metadata_selem(),
            pv == parts.deep_view(),
            pv == seq_deep(parts@),
            idx <= parts@.len() == pv.len() <= MAX_WIRE,
            forall|j: int| 0 <= j < pv.len() ==> partition_metadata_wf(#[trigger] pv[j]),
            output@ == old(output)@ + spec_ser_i32(pv.len() as i32) + spec_ser_elems(
                pv.take(idx as int),
                f,
            ),
        decreases parts@.len() - idx,
    {
        proof {
            assert(pv[idx as int] == parts@[idx as int].deep_view());
        }
        ser_partition_metadata(&parts[idx], output);
        proof {
            lemma_ser_elems_snoc(pv, idx as int, f);
            assert(f(pv[idx as int]) == spec_ser_partition_metadata(pv[idx as int]));
            assert(output@ =~= old(output)@ + spec_ser_i32(pv.len() as i32) + spec_ser_elems(
                pv.take(idx + 1),
                f,
            ));
        }
        idx = idx + 1;
    }
    proof {
        lemma_ser_elems_whole(pv, f);
    }
}

/// Serializes one topic's metadata onto `output`.
pub fn ser_topic_metadata(tm: &TopicMetadata, output: &mut Vec<u8>)
    requires
        topic_metadata_wf(tm.deep_view()),
    ensures
        final(output)@ == old(output)@ + spec_ser_topic_metadata(tm.deep_view()),
{
    ser_i16(tm.topic_error_code, output);
    ser_kafka_string(&tm.topic_name, output);
    ser_partition_metadata_array(&tm.partitions, output);
    proof {
        assert(output@ =~= old(output)@ + spec_ser_topic_metadata(tm.deep_view()));
    }
}

/// Serializes a whole metadata response onto `output`.
pub fn ser_metadata_response(r: &MetadataResponse, output: &mut Vec<u8>)
    requires
        metadata_response_wf(r.deep_view()),
    ensures
        final(output)@ == old(output)@ + spec_ser_metadata_response(r.deep_view()),
{
    broadcast use lemma_vec_deep_view;

    let ghost fb = broker_selem();
    let ghost bv = r.brokers.deep_view();
    ser_i32(r.brokers.len() as i32, output);
    let mut idx: usize = 0;
    while idx < r.brokers.len()
        invariant
            fb == broker_selem(),
            bv == r.brokers.deep_view(),
            bv == seq_deep(r.brokers@),
            idx <= r.brokers@.len() == bv.len() <= MAX_WIRE,
            forall|i: int| 0 <= i < bv.len() ==> broker_wf(#[trigger] bv[i]),
            output@ == old(output)@ + spec_ser_i32(bv.len() as i32) + spec_ser_elems(
                bv.take(idx as int),
                fb,
            ),
        decreases r.brokers@.len() - idx,
    {
        proof {
            assert(bv[idx as int] == r.brokers@[idx as int].deep_view());
        }
        ser_broker(&r.brokers[idx], output);
        proof {
            lemma_ser_elems_snoc(bv, idx as int, fb);
            assert(fb(bv[idx as int]) == spec_ser_broker(bv[idx as int]));
            assert(output@ =~= old(output)@ + spec_ser_i32(bv.len() as i32) + spec_ser_elems(
                bv.take(idx + 1),
                fb,
            ));
        }
        idx = idx + 1;
    }
    proof {
        lemma_ser_elems_whole(bv, fb);
    }
    let ghost mid = output@;
    let ghost ft = topic_metadata_selem();
    let ghost tv = r.topics.deep_view();
    ser_i32(r.topics.len() as i32, output);
    let mut jdx: usize = 0;
    while jdx < r.topics.len()
        invariant
            ft == topic_metadata_selem(),
            tv == r.topics.deep_view(),
            tv == seq_deep(r.topics@),
            jdx <= r.topics@.len() == tv.len() <= MAX_WIRE,
            forall|i: int| 0 <= i < tv.len() ==> topic_metadata_wf(#[trigger] tv[i]),
            output@ == mid + spec_ser_i32(tv.len() as i32) + spec_ser_elems(
                tv.take(jdx as int),
                ft,
            ),
        decreases r.topics@.len() - jdx,
    {
        proof {
            assert(tv[jdx as int] == r.topics@[jdx as int].deep_view());
        }
        ser_topic_metadata(&r.topics[jdx], output);
        proof {
            lemma_ser_elems_snoc(tv, jdx as int, ft);
            assert(ft(tv[jdx as int]) == spec_ser_topic_metadata(tv[jdx as int]));
            assert(output@ =~= mid + spec_ser_i32(tv.len() as i32) + spec_ser_elems(
                tv.take(jdx + 1),
                ft,
            ));
        }
        jdx = jdx + 1;
    }
    proof {
        lemma_ser_elems_whole(tv, ft);
        assert(output@ =~= old(output)@ + spec_ser_metadata_response(r.deep_view()));
    }
}

} // verus!
