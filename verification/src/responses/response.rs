//! The response envelope: correlation id and tagged payload, serialized
//! first, then prefixed with the four-byte length of exactly what was
//! serialized.

use vstd::prelude::*;

use crate::num::{be_u32_at, lemma_be_u32_roundtrip};
use crate::parser::primitive::MAX_WIRE;
use crate::responses::api_versions::{
    ser_api_versions_response, spec_ser_api_versions_response, ApiVersionsResponse,
    ApiVersionsResponseV,
};
use crate::responses::consumer_metadata::{
    ser_consumer_metadata_response, spec_ser_consumer_metadata_response,
    ConsumerMetadataResponse, ConsumerMetadataResponseV,
};
use crate::responses::fetch::{
    fetch_topic_wf, ser_fetch_response, spec_ser_fetch_response, FetchResponse,
};
use crate::responses::metadata::{
    metadata_response_wf, ser_metadata_response, spec_ser_metadata_response, MetadataResponse,
    MetadataResponseV,
};
use crate::responses::offset::{
    offset_topic_wf, ser_offset_response, spec_ser_offset_response, OffsetResponse,
};
use crate::responses::offset_commit::{
    oc_topic_wf, ser_offset_commit_response, spec_ser_offset_commit_response,
    OffsetCommitResponse,
};
use crate::responses::offset_fetch::{
    of_topic_wf, ser_offset_fetch_response, spec_ser_offset_fetch_response, OffsetFetchResponse,
};
use crate::responses::primitive::{extend_bytes, ser_i32, spec_ser_i32};
use crate::responses::produce::{
    produce_topic_wf, ser_produce_response, spec_ser_produce_response, ProduceResponse,
};
use crate::parser::message::OMsMessageV;

verus! {

/// The payload of one response, one variant per supported response kind.
#[derive(Debug, PartialEq)]
pub enum ResponsePayload {
    ConsumerMetadataResponse(ConsumerMetadataResponse),
    MetadataResponse(MetadataResponse),
    ProduceResponse(ProduceResponse),
    FetchResponse(FetchResponse),
    OffsetResponse(OffsetResponse),
    OffsetCommitResponse(OffsetCommitResponse),
    OffsetFetchResponse(OffsetFetchResponse),
    ApiVersionsResponse(ApiVersionsResponse),
}

#[verifier::ext_equal]
pub enum ResponsePayloadV {
    ConsumerMetadataResponse(ConsumerMetadataResponseV),
    MetadataResponse(MetadataResponseV),
    ProduceResponse(Seq<(Seq<u8>, Seq<(i32, i16, i64)>)>),
    FetchResponse(Seq<(Seq<u8>, Seq<(i32, i16, i64, Seq<OMsMessageV>)>)>),
    OffsetResponse(Seq<(Seq<u8>, Seq<(i32, i16, Seq<i64>)>)>),
    OffsetCommitResponse(Seq<(Seq<u8>, Seq<(i32, i16)>)>),
    OffsetFetchResponse(Seq<(Seq<u8>, Seq<(i32, i64, Seq<u8>, i16)>)>),
    ApiVersionsResponse(ApiVersionsResponseV),
}

impl DeepView for ResponsePayload {
    type V = ResponsePayloadV;

    open spec fn deep_view(&self) -> ResponsePayloadV {
        match self {
            ResponsePayload::ConsumerMetadataResponse(p) => {
                ResponsePayloadV::ConsumerMetadataResponse(p.deep_view())
            },
            ResponsePayload::MetadataResponse(p) => ResponsePayloadV::MetadataResponse(
                p.deep_view(),
            ),
            ResponsePayload::ProduceResponse(p) => ResponsePayloadV::ProduceResponse(
                p.deep_view(),
            ),
            ResponsePayload::FetchResponse(p) => ResponsePayloadV::FetchResponse(p.deep_view()),
            ResponsePayload::OffsetResponse(p) => ResponsePayloadV::OffsetResponse(p.deep_view()),
            ResponsePayload::OffsetCommitResponse(p) => ResponsePayloadV::OffsetCommitResponse(
                p.deep_view(),
            ),
            ResponsePayload::OffsetFetchResponse(p) => ResponsePayloadV::OffsetFetchResponse(
                p.deep_view(),
            ),
            ResponsePayload::ApiVersionsResponse(p) => ResponsePayloadV::ApiVersionsResponse(
                p.deep_view(),
            ),
        }
    }
}

/// One response: the correlation id of the request it answers, and the
/// payload.
#[derive(Debug, PartialEq)]
pub struct ResponseMessage {
    pub correlation_id: i32,
    pub response_payload: ResponsePayload,
}

#[verifier::ext_equal]
pub struct ResponseMessageV {
    pub correlation_id: i32,
    pub response_payload: ResponsePayloadV,
}

impl DeepView for ResponseMessage {
    type V = ResponseMessageV;

    open spec fn deep_view(&self) -> ResponseMessageV {
        ResponseMessageV {
            correlation_id: self.correlation_id,
            response_payload: self.response_payload.deep_view(),
        }
    }
}

/// The bytes of an encoded payload, by its kind.
pub open spec fn spec_ser_response_payload(p: ResponsePayloadV) -> Seq<u8> {
    match p {
        ResponsePayloadV::ConsumerMetadataResponse(r) => spec_ser_consumer_metadata_response(r),
        ResponsePayloadV::MetadataResponse(r) => spec_ser_metadata_response(r),
        ResponsePayloadV::ProduceResponse(r) => spec_ser_produce_response(r),
        ResponsePayloadV::FetchResponse(r) => spec_ser_fetch_response(r),
        ResponsePayloadV::OffsetResponse(r) => spec_ser_offset_response(r),
        ResponsePayloadV::OffsetCommitResponse(r) => spec_ser_offset_commit_response(r),
        ResponsePayloadV::OffsetFetchResponse(r) => spec_ser_offset_fetch_response(r),
        ResponsePayloadV::ApiVersionsResponse(r) => spec_ser_api_versions_response(r),
    }
}

/// What the encoder asks of a payload, by its kind.
pub open spec fn response_payload_wf(p: ResponsePayloadV) -> bool {
    match p {
        ResponsePayloadV::ConsumerMetadataResponse(r) => r.coordinator_host.len() <= 0x7fff,
        ResponsePayloadV::MetadataResponse(r) => metadata_response_wf(r),
        ResponsePayloadV::ProduceResponse(r) => r.len() <= MAX_WIRE && forall|i: int|
            0 <= i < r.len() ==> produce_topic_wf(#[trigger] r[i]),
        ResponsePayloadV::FetchResponse(r) => r.len() <= MAX_WIRE && forall|i: int|
            0 <= i < r.len() ==> fetch_topic_wf(#[trigger] r[i]),
        ResponsePayloadV::OffsetResponse(r) => r.len() <= MAX_WIRE && forall|i: int|
            0 <= i < r.len() ==> offset_topic_wf(#[trigger] r[i]),
        ResponsePayloadV::OffsetCommitResponse(r) => r.len() <= MAX_WIRE && forall|i: int|
            0 <= i < r.len() ==> oc_topic_wf(#[trigger] r[i]),
        ResponsePayloadV::OffsetFetchResponse(r) => r.len() <= MAX_WIRE && forall|i: int|
            0 <= i < r.len() ==> of_topic_wf(#[trigger] r[i]),
        ResponsePayloadV::ApiVersionsResponse(r) => r.api_versions.len() * 6 <= MAX_WIRE,
    }
}

/// The body of an encoded response: correlation id, then payload.
pub open spec fn spec_ser_response_body(r: ResponseMessageV) -> Seq<u8> {
    spec_ser_i32(r.correlation_id) + spec_ser_response_payload(r.response_payload)
}

/// A whole encoded response: the body's length, computed from the encoded
/// body itself, then the body.
pub open spec fn spec_ser_response_message(r: ResponseMessageV) -> Seq<u8> {
    spec_ser_i32(spec_ser_response_body(r).len() as i32) + spec_ser_response_body(r)
}

fn ser_response_payload(p: &ResponsePayload, output: &mut Vec<u8>)
    requires
        response_payload_wf(p.deep_view()),
    ensures
        final(output)@ == old(output)@ + spec_ser_response_payload(p.deep_view()),
{
    match p {
        ResponsePayload::ConsumerMetadataResponse(r) => ser_consumer_metadata_response(r, output),
        ResponsePayload::MetadataResponse(r) => ser_metadata_response(r, output),
        ResponsePayload::ProduceResponse(r) => ser_produce_response(r, output),
        ResponsePayload::FetchResponse(r) => ser_fetch_response(r, output),
        ResponsePayload::OffsetResponse(r) => ser_offset_response(r, output),
        ResponsePayload::OffsetCommitResponse(r) => ser_offset_commit_response(r, output),
        ResponsePayload::OffsetFetchResponse(r) => ser_offset_fetch_response(r, output),
        ResponsePayload::ApiVersionsResponse(r) => ser_api_versions_response(r, output),
    }
}

/// Serializes a whole response onto `output`: the body is encoded first and
/// its length written in front of it.
pub fn ser_response_message(response: &ResponseMessage, output: &mut Vec<u8>)
    requires
        response_payload_wf(response.deep_view().response_payload),
        spec_ser_response_body(response.deep_view()).len() <= MAX_WIRE,
    ensures
        final(output)@ == old(output)@ + spec_ser_response_message(response.deep_view()),
{
    let mut r_output: Vec<u8> = Vec::new();
    ser_i32(response.correlation_id, &mut r_output);
    ser_response_payload(&response.response_payload, &mut r_output);
    proof {
        assert(r_output@ =~= spec_ser_response_body(response.deep_view()));
    }
    ser_i32(r_output.len() as i32, output);
    extend_bytes(&r_output, output);
    proof {
        assert(output@ =~= old(output)@ + spec_ser_response_message(response.deep_view()));
    }
}

/// The leading four bytes of an encoded response always read back as the byte
/// length of everything that follows them.
pub proof fn lemma_response_length_prefix(r: ResponseMessageV)
    requires
        spec_ser_response_body(r).len() <= MAX_WIRE,
    ensures
        spec_ser_response_message(r).len() == 4 + spec_ser_response_body(r).len(),
        be_u32_at(spec_ser_response_message(r), 0) == spec_ser_response_body(r).len(),
        spec_ser_response_message(r).skip(4) == spec_ser_response_body(r),
{
    let body = spec_ser_response_body(r);
    let n = body.len() as i32;
    let whole = spec_ser_response_message(r);
    lemma_be_u32_roundtrip(n as u32);
    assert forall|j: int| 0 <= j < 4 implies whole[j] == crate::num::be_u32_bytes(n as u32)[j] by {
        assert(whole[j] == spec_ser_i32(n)[j]);
    }
    assert(be_u32_at(whole, 0) == be_u32_at(crate::num::be_u32_bytes(n as u32), 0));
    assert(whole.skip(4) =~= body);
}

/// Encodes a response as one framed byte vector, refusing a body whose
/// length cannot be described by the four-byte prefix.
pub fn encode_response(response: &ResponseMessage) -> (r: Option<Vec<u8>>)
    requires
        response_payload_wf(response.deep_view().response_payload),
    ensures
        spec_ser_response_body(response.deep_view()).len() <= MAX_WIRE ==> (r matches Some(v)
            && v@ == spec_ser_response_message(response.deep_view())),
        spec_ser_response_body(response.deep_view()).len() > MAX_WIRE ==> r is None,
{
    let mut r_output: Vec<u8> = Vec::new();
    ser_i32(response.correlation_id, &mut r_output);
    ser_response_payload(&response.response_payload, &mut r_output);
    proof {
        assert(r_output@ =~= spec_ser_response_body(response.deep_view()));
    }
    if r_output.len() > MAX_WIRE {
        return None;
    }
    let mut out: Vec<u8> = Vec::new();
    ser_i32(r_output.len() as i32, &mut out);
    extend_bytes(&r_output, &mut out);
    proof {
        assert(out@ =~= spec_ser_response_message(response.deep_view()));
    }
    Some(out)
}

/// Encoding is deterministic: the encoded form is a function of the message
/// alone, so any two encodings of the same message are byte-identical.
pub proof fn lemma_encode_deterministic(r: ResponseMessageV, out1: Seq<u8>, out2: Seq<u8>)
    requires
        out1 == spec_ser_response_message(r),
        out2 == spec_ser_response_message(r),
    ensures
        out1 == out2,
{
}

} // verus!
