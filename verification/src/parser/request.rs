//! The top-level request decoder: the framed envelope, the common header, and
//! the dispatch on API key and version to the per-API grammars. A payload
//! must consume its input to the exact end; trailing bytes are a framing
//! error.

use vstd::prelude::*;

use crate::errors::InputError;
use crate::parser::consumer_metadata::{spec_consumer_metadata_request, consumer_metadata_request};
use crate::parser::fetch::{fetch_request, spec_fetch_request, FetchRequest, FetchRequestV};
use crate::parser::metadata::{spec_topic_metadata_request, topic_metadata_request, TopicMetadataRequest};
use crate::parser::offset::{offset_request, spec_offset_request, OffsetRequest, OffsetRequestV};
use crate::parser::offset_commit::{
    offset_commit_request, spec_offset_commit_request, OffsetCommitRequest,
    OffsetCommitRequestView,
};
use crate::parser::offset_fetch::{
    offset_fetch_request, spec_offset_fetch_request, OffsetFetchRequest, OffsetFetchRequestV,
};
use crate::parser::primitive::{
    be_i16, be_i32, kafka_string, lemma_vec_u8_deep_view, parse_bounds, spec_be_i16, spec_be_i32,
    spec_kafka_string, subvec, wire_pos, Parsed, SpecParsed,
};
use crate::parser::produce::{produce_request, spec_produce_request, ProduceRequest, ProduceRequestV};

verus! {

/// The payload of one request, one variant per supported API key.
#[derive(Debug, PartialEq)]
pub enum RequestPayload {
    ProduceRequest(ProduceRequest),
    FetchRequest(FetchRequest),
    OffsetRequest(OffsetRequest),
    MetadataRequest(TopicMetadataRequest),
    OffsetCommitRequest(OffsetCommitRequest),
    OffsetFetchRequest(OffsetFetchRequest),
    ConsumerMetadataRequest(Vec<u8>),
    ApiVersionsRequest,
}

#[verifier::ext_equal]
pub enum RequestPayloadV {
    ProduceRequest(ProduceRequestV),
    FetchRequest(FetchRequestV),
    OffsetRequest(OffsetRequestV),
    MetadataRequest(Seq<Seq<u8>>),
    OffsetCommitRequest(OffsetCommitRequestView),
    OffsetFetchRequest(OffsetFetchRequestV),
    ConsumerMetadataRequest(Seq<u8>),
    ApiVersionsRequest,
}

impl DeepView for RequestPayload {
    type V = RequestPayloadV;

    open spec fn deep_view(&self) -> RequestPayloadV {
        match self {
            RequestPayload::ProduceRequest(p) => RequestPayloadV::ProduceRequest(p.deep_view()),
            RequestPayload::FetchRequest(p) => RequestPayloadV::FetchRequest(p.deep_view()),
            RequestPayload::OffsetRequest(p) => RequestPayloadV::OffsetRequest(p.deep_view()),
            RequestPayload::MetadataRequest(p) => RequestPayloadV::MetadataRequest(p.deep_view()),
            RequestPayload::OffsetCommitRequest(p) => RequestPayloadV::OffsetCommitRequest(
                p.deep_view(),
            ),
            RequestPayload::OffsetFetchRequest(p) => RequestPayloadV::OffsetFetchRequest(
                p.deep_view(),
            ),
            RequestPayload::ConsumerMetadataRequest(p) => RequestPayloadV::ConsumerMetadataRequest(
                p@,
            ),
            RequestPayload::ApiVersionsRequest => RequestPayloadV::ApiVersionsRequest,
        }
    }
}

/// One decoded request: the header fields and the dispatched payload.
#[derive(Debug, PartialEq)]
pub struct RequestMessage {
    pub api_version: i16,
    pub correlation_id: i32,
    pub client_id: Vec<u8>,
    pub request_payload: RequestPayload,
}

#[verifier::ext_equal]
pub struct RequestMessageV {
    pub api_version: i16,
    pub correlation_id: i32,
    pub client_id: Seq<u8>,
    pub request_payload: RequestPayloadV,
}

impl DeepView for RequestMessage {
    type V = RequestMessageV;

    open spec fn deep_view(&self) -> RequestMessageV {
        RequestMessageV {
            api_version: self.api_version,
            correlation_id: self.correlation_id,
            client_id: self.client_id@,
            request_payload: self.request_payload.deep_view(),
        }
    }
}

/// The payload grammar an API key and version select. Produce is key 0, fetch
/// 1, list-offsets 2, metadata 3, offset-commit 8, offset-fetch 9,
/// consumer-metadata 10 and api-versions 18, which carries no payload bytes.
/// Every other key — the control keys 4 through 7, 11 and 12 included — is
/// unsupported and decodes to `NotImplemented`, never to a branch that
/// mis-reads the stream; only an unsupported version of a known key (an
/// offset-commit version outside 0 to 2) is `ParserError`.
pub open spec fn spec_request_payload(s: Seq<u8>, pos: int, api_version: i16, api_key: i16)
    -> SpecParsed<RequestPayloadV> {
    if api_key == 0 {
        match spec_produce_request(s, pos) {
            SpecParsed::Done(n, p) => SpecParsed::Done(n, RequestPayloadV::ProduceRequest(p)),
            SpecParsed::Incomplete(k) => SpecParsed::Incomplete(k),
            SpecParsed::Fail(e) => SpecParsed::Fail(e),
        }
    } else if api_key == 1 {
        match spec_fetch_request(s, pos) {
            SpecParsed::Done(n, p) => SpecParsed::Done(n, RequestPayloadV::FetchRequest(p)),
            SpecParsed::Incomplete(k) => SpecParsed::Incomplete(k),
            SpecParsed::Fail(e) => SpecParsed::Fail(e),
        }
    } else if api_key == 2 {
        match spec_offset_request(s, pos) {
            SpecParsed::Done(n, p) => SpecParsed::Done(n, RequestPayloadV::OffsetRequest(p)),
            SpecParsed::Incomplete(k) => SpecParsed::Incomplete(k),
            SpecParsed::Fail(e) => SpecParsed::Fail(e),
        }
    } else if api_key == 3 {
        match spec_topic_metadata_request(s, pos) {
            SpecParsed::Done(n, p) => SpecParsed::Done(n, RequestPayloadV::MetadataRequest(p)),
            SpecParsed::Incomplete(k) => SpecParsed::Incomplete(k),
            SpecParsed::Fail(e) => SpecParsed::Fail(e),
        }
    } else if api_key == 8 {
        match spec_offset_commit_request(s, pos, api_version) {
            SpecParsed::Done(n, p) => SpecParsed::Done(n, RequestPayloadV::OffsetCommitRequest(p)),
            SpecParsed::Incomplete(k) => SpecParsed::Incomplete(k),
            SpecParsed::Fail(e) => SpecParsed::Fail(e),
        }
    } else if api_key == 9 {
        match spec_offset_fetch_request(s, pos) {
            SpecParsed::Done(n, p) => SpecParsed::Done(n, RequestPayloadV::OffsetFetchRequest(p)),
            SpecParsed::Incomplete(k) => SpecParsed::Incomplete(k),
            SpecParsed::Fail(e) => SpecParsed::Fail(e),
        }
    } else if api_key == 10 {
        match spec_consumer_metadata_request(s, pos) {
            SpecParsed::Done(n, p) => SpecParsed::Done(
                n,
                RequestPayloadV::ConsumerMetadataRequest(p),
            ),
            SpecParsed::Incomplete(k) => SpecParsed::Incomplete(k),
            SpecParsed::Fail(e) => SpecParsed::Fail(e),
        }
    } else if api_key == 18 {
        SpecParsed::Done(pos, RequestPayloadV::ApiVersionsRequest)
    } else {
        SpecParsed::Fail(InputError::NotImplemented)
    }
}

#[verifier::rlimit(100)]
#[verifier::spinoff_prover]
pub fn parse_request_payload(input: &Vec<u8>, pos: usize, api_version: i16, api_key: i16) -> (r:
    Parsed<RequestPayload>)
    requires
        wire_pos(input@, pos as int),
    ensures
        r@ == spec_request_payload(input@, pos as int, api_version, api_key),
        parse_bounds(r@, input@.len() as int, pos as int),
{
    broadcast use lemma_vec_u8_deep_view;

    if api_key == 0 {
        match produce_request(input, pos) {
            Parsed::Done(n, p) => Parsed::Done(n, RequestPayload::ProduceRequest(p)),
            Parsed::Incomplete(k) => Parsed::Incomplete(k),
            Parsed::Fail(e) => Parsed::Fail(e),
        }
    } else if api_key == 1 {
        match fetch_request(input, pos) {
            Parsed::Done(n, p) => Parsed::Done(n, RequestPayload::FetchRequest(p)),
            Parsed::Incomplete(k) => Parsed::Incomplete(k),
            Parsed::Fail(e) => Parsed::Fail(e),
        }
    } else if api_key == 2 {
        match offset_request(input, pos) {
            Parsed::Done(n, p) => Parsed::Done(n, RequestPayload::OffsetRequest(p)),
            Parsed::Incomplete(k) => Parsed::Incomplete(k),
            Parsed::Fail(e) => Parsed::Fail(e),
        }
    } else if api_key == 3 {
        match topic_metadata_request(input, pos) {
            Parsed::Done(n, p) => Parsed::Done(n, RequestPayload::MetadataRequest(p)),
            Parsed::Incomplete(k) => Parsed::Incomplete(k),
            Parsed::Fail(e) => Parsed::Fail(e),
        }
    } else if api_key == 8 {
        match offset_commit_request(input, pos, api_version) {
            Parsed::Done(n, p) => Parsed::Done(n, RequestPayload::OffsetCommitRequest(p)),
            Parsed::Incomplete(k) => Parsed::Incomplete(k),
            Parsed::Fail(e) => Parsed::Fail(e),
        }
    } else if api_key == 9 {
        match offset_fetch_request(input, pos) {
            Parsed::Done(n, p) => Parsed::Done(n, RequestPayload::OffsetFetchRequest(p)),
            Parsed::Incomplete(k) => Parsed::Incomplete(k),
            Parsed::Fail(e) => Parsed::Fail(e),
        }
    } else if api_key == 10 {
        match consumer_metadata_request(input, pos) {
            Parsed::Done(n, p) => Parsed::Done(n, RequestPayload::ConsumerMetadataRequest(p)),
            Parsed::Incomplete(k) => Parsed::Incomplete(k),
            Parsed::Fail(e) => Parsed::Fail(e),
        }
    } else if api_key == 18 {
        Parsed::Done(pos, RequestPayload::ApiVersionsRequest)
    } else {
        Parsed::Fail(InputError::NotImplemented)
    }
}

/// One whole request body: api key, api version, correlation id, client id,
/// then the dispatched payload, which must end exactly at the end of the
/// input.
pub open spec fn spec_request_message(s: Seq<u8>, pos: int) -> SpecParsed<RequestMessageV> {
    match spec_be_i16(s, pos) {
        SpecParsed::Done(p1, api_key) => match spec_be_i16(s, p1) {
            SpecParsed::Done(p2, api_version) => match spec_be_i32(s, p2) {
                SpecParsed::Done(p3, correlation_id) => match spec_kafka_string(s, p3) {
                    SpecParsed::Done(p4, client_id) => match spec_request_payload(
                        s,
                        p4,
                        api_version,
                        api_key,
                    ) {
                        SpecParsed::Done(p5, payload) => if p5 == s.len() {
                            SpecParsed::Done(
                                p5,
                                RequestMessageV {
                                    api_version,
                                    correlation_id,
                                    client_id,
                                    request_payload: payload,
                                },
                            )
                        } else {
                            SpecParsed::Fail(InputError::ParserError)
                        },
                        SpecParsed::Incomplete(k) => SpecParsed::Incomplete((p4 - pos) + k),
                        SpecParsed::Fail(e) => SpecParsed::Fail(e),
                    },
                    SpecParsed::Incomplete(k) => SpecParsed::Incomplete((p3 - pos) + k),
                    SpecParsed::Fail(e) => SpecParsed::Fail(e),
                },
                SpecParsed::Incomplete(k) => SpecParsed::Incomplete((p2 - pos) + k),
                SpecParsed::Fail(e) => SpecParsed::Fail(e),
            },
            SpecParsed::Incomplete(k) => SpecParsed::Incomplete((p1 - pos) + k),
            SpecParsed::Fail(e) => SpecParsed::Fail(e),
        },
        SpecParsed::Incomplete(k) => SpecParsed::Incomplete(k),
        SpecParsed::Fail(e) => SpecParsed::Fail(e),
    }
}

pub fn request_message(input: &Vec<u8>, pos: usize) -> (r: Parsed<RequestMessage>)
    requires
        wire_pos(input@, pos as int),
    ensures
        r@ == spec_request_message(input@, pos as int),
        parse_bounds(r@, input@.len() as int, pos as int),
{
    broadcast use lemma_vec_u8_deep_view;

    match be_i16(input, pos) {
        Parsed::Done(p1, api_key) => match be_i16(input, p1) {
            Parsed::Done(p2, api_version) => match be_i32(input, p2) {
                Parsed::Done(p3, correlation_id) => match kafka_string(input, p3) {
                    Parsed::Done(p4, client_id) => match parse_request_payload(
                        input,
                        p4,
                        api_version,
                        api_key,
                    ) {
                        Parsed::Done(p5, payload) => {
                            if p5 == input.len() {
                                Parsed::Done(
                                    p5,
                                    RequestMessage {
                                        api_version,
                                        correlation_id,
                                        client_id,
                                        request_payload: payload,
                                    },
                                )
                            } else {
                                Parsed::Fail(InputError::ParserError)
                            }
                        },
                        Parsed::Incomplete(k) => Parsed::Incomplete((p4 - pos) + k),
                        Parsed::Fail(e) => Parsed::Fail(e),
                    },
                    Parsed::Incomplete(k) => Parsed::Incomplete((p3 - pos) + k),
                    Parsed::Fail(e) => Parsed::Fail(e),
                },
                Parsed::Incomplete(k) => Parsed::Incomplete((p2 - pos) + k),
                Parsed::Fail(e) => Parsed::Fail(e),
            },
            Parsed::Incomplete(k) => Parsed::Incomplete((p1 - pos) + k),
            Parsed::Fail(e) => Parsed::Fail(e),
        },
        Parsed::Incomplete(k) => Parsed::Incomplete(k),
        Parsed::Fail(e) => Parsed::Fail(e),
    }
}

/// The framed envelope: a four-byte size, then a body of exactly that many
/// bytes decoded as one request. A negative size is `InvalidRequestSize`; a
/// size the input cannot cover reports that size as needed; whatever follows
/// the frame is left untouched.
pub open spec fn spec_request_message_with_length(s: Seq<u8>, pos: int) -> SpecParsed<
    RequestMessageV,
> {
    match spec_be_i32(s, pos) {
        SpecParsed::Done(p1, size) => if size < 0 {
            SpecParsed::Fail(InputError::InvalidRequestSize)
        } else if s.len() - p1 < size {
            SpecParsed::Incomplete(size as int)
        } else {
            match spec_request_message(s.subrange(p1, p1 + size), 0) {
                SpecParsed::Done(_, m) => SpecParsed::Done(p1 + size, m),
                SpecParsed::Incomplete(k) => SpecParsed::Incomplete(k),
                SpecParsed::Fail(e) => SpecParsed::Fail(e),
            }
        },
        SpecParsed::Incomplete(k) => SpecParsed::Incomplete(k),
        SpecParsed::Fail(e) => SpecParsed::Fail(e),
    }
}

pub fn request_message_with_length(input: &Vec<u8>, pos: usize) -> (r: Parsed<RequestMessage>)
    requires
        wire_pos(input@, pos as int),
    ensures
        r@ == spec_request_message_with_length(input@, pos as int),
        parse_bounds(r@, input@.len() as int, pos as int),
{
    match be_i32(input, pos) {
        Parsed::Done(p1, size) => {
            if size < 0 {
                return Parsed::Fail(InputError::InvalidRequestSize);
            }
            let sz = size as usize;
            if input.len() - p1 < sz {
                return Parsed::Incomplete(sz);
            }
            let w = subvec(input, p1, p1 + sz);
            match request_message(&w, 0) {
                Parsed::Done(_, m) => Parsed::Done(p1 + sz, m),
                Parsed::Incomplete(k) => Parsed::Incomplete(k),
                Parsed::Fail(e) => Parsed::Fail(e),
            }
        },
        Parsed::Incomplete(k) => Parsed::Incomplete(k),
        Parsed::Fail(e) => Parsed::Fail(e),
    }
}

/// Frame exactness: whenever the framed decoder succeeds, it has consumed
/// the four-byte size header and then exactly the declared number of body
/// bytes, so on a buffer of `4 + size + k` bytes exactly `k` trailing bytes
/// are left untouched.
pub proof fn lemma_frame_exact(s: Seq<u8>)
    requires
        spec_request_message_with_length(s, 0) is Done,
    ensures
        spec_request_message_with_length(s, 0) matches SpecParsed::Done(n, _) ==> {
            &&& crate::num::be_i32_at(s, 0) >= 0
            &&& n == 4 + crate::num::be_i32_at(s, 0)
            &&& n <= s.len()
        },
{
}

} // verus!
