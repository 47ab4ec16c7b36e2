//! The business-logic collaborator: turns one decoded request into one
//! response, with a fixed broker/topic picture. Requests it does not answer
//! come back as a numeric error code.

use vstd::prelude::*;

use crate::parser::request::{RequestMessage, RequestMessageV, RequestPayload, RequestPayloadV};
use crate::responses::api_versions::{ApiVersion, ApiVersionsResponse, ApiVersionsResponseV};
use crate::responses::metadata::{
    Broker, BrokerV, MetadataResponse, MetadataResponseV, PartitionMetadata, PartitionMetadataV,
    TopicMetadata, TopicMetadataV,
};
use crate::responses::produce::ProduceResponse;
use crate::responses::response::{
    response_payload_wf, ResponseMessage, ResponseMessageV, ResponsePayload, ResponsePayloadV,
};

verus! {

/// The API version table this broker advertises, one row per API key it
/// answers to, each at versions 0 to 0 but offset-commit at 0 to 2.
pub open spec fn spec_api_version_0_9_0() -> Seq<ApiVersion> {
    seq![
        ApiVersion(0, 0, 0),
        ApiVersion(1, 0, 0),
        ApiVersion(2, 0, 0),
        ApiVersion(3, 0, 0),
        ApiVersion(8, 0, 2),
        ApiVersion(9, 0, 0),
        ApiVersion(10, 0, 0),
        ApiVersion(11, 0, 0),
        ApiVersion(12, 0, 0),
        ApiVersion(13, 0, 0),
        ApiVersion(14, 0, 0),
        ApiVersion(15, 0, 0),
        ApiVersion(16, 0, 0),
    ]
}

/// The advertised API version table as a vector.
pub fn api_version_0_9_0() -> (r: Vec<ApiVersion>)
    ensures
        r@ == spec_api_version_0_9_0(),
{
    let mut v: Vec<ApiVersion> = Vec::new();
    v.push(ApiVersion(0, 0, 0));
    v.push(ApiVersion(1, 0, 0));
    v.push(ApiVersion(2, 0, 0));
    v.push(ApiVersion(3, 0, 0));
    v.push(ApiVersion(8, 0, 2));
    v.push(ApiVersion(9, 0, 0));
    v.push(ApiVersion(10, 0, 0));
    v.push(ApiVersion(11, 0, 0));
    v.push(ApiVersion(12, 0, 0));
    v.push(ApiVersion(13, 0, 0));
    v.push(ApiVersion(14, 0, 0));
    v.push(ApiVersion(15, 0, 0));
    v.push(ApiVersion(16, 0, 0));
    proof {
        assert(v@ =~= spec_api_version_0_9_0());
    }
    v
}

/// The bytes of the advertised host name.
pub open spec fn spec_localhost() -> Seq<u8> {
    seq![108u8, 111u8, 99u8, 97u8, 108u8, 104u8, 111u8, 115u8, 116u8]
}

/// The bytes of the one topic name this broker reports.
pub open spec fn spec_topic1() -> Seq<u8> {
    seq![116u8, 111u8, 112u8, 105u8, 99u8, 49u8]
}

fn localhost_bytes() -> (r: Vec<u8>)
    ensures
        r@ == spec_localhost(),
{
    let mut v: Vec<u8> = Vec::new();
    v.push(108);
    v.push(111);
    v.push(99);
    v.push(97);
    v.push(108);
    v.push(104);
    v.push(111);
    v.push(115);
    v.push(116);
    proof {
        assert(v@ =~= spec_localhost());
    }
    v
}

fn topic1_bytes() -> (r: Vec<u8>)
    ensures
        r@ == spec_topic1(),
{
    let mut v: Vec<u8> = Vec::new();
    v.push(116);
    v.push(111);
    v.push(112);
    v.push(105);
    v.push(99);
    v.push(49);
    proof {
        assert(v@ =~= spec_topic1());
    }
    v
}

/// The fixed metadata this broker reports: itself as the one broker, one
/// topic with one healthy partition.
pub open spec fn spec_default_metadata() -> MetadataResponseV {
    MetadataResponseV {
        brokers: seq![BrokerV { node_id: 1234, host: spec_localhost(), port: 9092 }],
        topics: seq![
            TopicMetadataV {
                topic_error_code: 0,
                topic_name: spec_topic1(),
                partitions: seq![
                    PartitionMetadataV {
                        partition_error_code: 0,
                        partition_id: 0,
                        leader: 1234,
                        replicas: seq![0i32],
                        isr: seq![1i32],
                    },
                ],
            },
        ],
    }
}

/// The fixed produce acknowledgement: the one topic, partition 0, offset
/// 1337.
pub open spec fn spec_default_produce() -> Seq<(Seq<u8>, Seq<(i32, i16, i64)>)> {
    seq![(spec_topic1(), seq![(0i32, 0i16, 1337i64)])]
}

/// What `handle_request` answers: metadata, produce and api-versions
/// requests get their fixed response under the request's correlation id;
/// everything else is the error code zero.
pub open spec fn spec_handle_request(req: RequestMessageV) -> Result<ResponseMessageV, u8> {
    match req.request_payload {
        RequestPayloadV::MetadataRequest(_) => Ok(
            ResponseMessageV {
                correlation_id: req.correlation_id,
                response_payload: ResponsePayloadV::MetadataResponse(spec_default_metadata()),
            },
        ),
        RequestPayloadV::ProduceRequest(_) => Ok(
            ResponseMessageV {
                correlation_id: req.correlation_id,
                response_payload: ResponsePayloadV::ProduceResponse(spec_default_produce()),
            },
        ),
        RequestPayloadV::ApiVersionsRequest => Ok(
            ResponseMessageV {
                correlation_id: req.correlation_id,
                response_payload: ResponsePayloadV::ApiVersionsResponse(
                    ApiVersionsResponseV { error_code: 0, api_versions: spec_api_version_0_9_0() },
                ),
            },
        ),
        _ => Err(0),
    }
}

/// Answers one decoded request, as `spec_handle_request` says; every
/// response it produces is well-formed for the encoder.
pub fn handle_request(req: RequestMessage) -> (r: Result<ResponseMessage, u8>)
    ensures
        r matches Ok(resp) ==> spec_handle_request(req.deep_view()) == Ok::<ResponseMessageV, u8>(
            resp.deep_view(),
        ) && response_payload_wf(resp.deep_view().response_payload),
        r matches Err(e) ==> spec_handle_request(req.deep_view()) == Err::<ResponseMessageV, u8>(
            e,
        ),
{
    match req.request_payload {
        RequestPayload::MetadataRequest(_) => {
            let brokers = {
                let mut bs: Vec<Broker> = Vec::new();
                bs.push(Broker { node_id: 1234, host: localhost_bytes(), port: 9092 });
                bs
            };
            let partitions = {
                let mut ps: Vec<PartitionMetadata> = Vec::new();
                let mut replicas: Vec<i32> = Vec::new();
                replicas.push(0);
                let mut isr: Vec<i32> = Vec::new();
                isr.push(1);
                ps.push(
                    PartitionMetadata {
                        partition_error_code: 0,
                        partition_id: 0,
                        leader: 1234,
                        replicas,
                        isr,
                    },
                );
                ps
            };
            let topics = {
                let mut ts: Vec<TopicMetadata> = Vec::new();
                ts.push(
                    TopicMetadata {
                        topic_error_code: 0,
                        topic_name: topic1_bytes(),
                        partitions,
                    },
                );
                ts
            };
            let resp = ResponseMessage {
                correlation_id: req.correlation_id,
                response_payload: ResponsePayload::MetadataResponse(
                    MetadataResponse { brokers, topics },
                ),
            };
            proof {
                assert(resp.deep_view().response_payload
                    == ResponsePayloadV::MetadataResponse(spec_default_metadata())) by {
                    assert(resp.response_payload.deep_view()
                        matches ResponsePayloadV::MetadataResponse(m) ==> m.brokers
                        =~~= spec_default_metadata().brokers && m.topics
                        =~~= spec_default_metadata().topics);
                }
            }
            Ok(resp)
        },
        RequestPayload::ProduceRequest(_) => {
            let mut parts: Vec<(i32, i16, i64)> = Vec::new();
            parts.push((0, 0, 1337));
            let mut topics: ProduceResponse = Vec::new();
            topics.push((topic1_bytes(), parts));
            let resp = ResponseMessage {
                correlation_id: req.correlation_id,
                response_payload: ResponsePayload::ProduceResponse(topics),
            };
            proof {
                assert(resp.deep_view().response_payload
                    == ResponsePayloadV::ProduceResponse(spec_default_produce())) by {
                    assert(resp.response_payload.deep_view()
                        matches ResponsePayloadV::ProduceResponse(t) ==> t
                        =~~= spec_default_produce());
                }
            }
            Ok(resp)
        },
        RequestPayload::ApiVersionsRequest => {
            let resp = ResponseMessage {
                correlation_id: req.correlation_id,
                response_payload: ResponsePayload::ApiVersionsResponse(
                    ApiVersionsResponse { error_code: 0, api_versions: api_version_0_9_0() },
                ),
            };
            proof {
                assert(resp.deep_view().response_payload
                    == ResponsePayloadV::ApiVersionsResponse(
                    ApiVersionsResponseV { error_code: 0, api_versions: spec_api_version_0_9_0() },
                )) by {
                    assert(resp.response_payload.deep_view()
                        matches ResponsePayloadV::ApiVersionsResponse(a) ==> a.api_versions
                        =~= spec_api_version_0_9_0());
                }
            }
            Ok(resp)
        },
        _ => Err(0u8),
    }
}

} // verus!
