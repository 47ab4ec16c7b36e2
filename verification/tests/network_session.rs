use proust_core::network::{
    buffer_progress, handle_frame, header_progress, parse_size_header, ClientErr, ClientState,
    TokenPool,
};
use proust_core::parser::primitive::Parsed;
use proust_core::parser::request::{request_message, RequestMessage, RequestPayload};
use proust_core::proust::{api_version_0_9_0, handle_request};
use proust_core::responses::response::{ResponsePayload};

#[test]
fn parse_size_header_decisions() {
    // A short header read is waited out; four bytes are the length.
    assert!(matches!(parse_size_header(&vec![0, 0, 0, 0], 2), Err(ClientErr::Continue)));
    assert!(matches!(parse_size_header(&vec![0, 0, 0, 0], 0), Err(ClientErr::Continue)));
    assert_eq!(parse_size_header(&vec![0x00, 0x00, 0x00, 0x0e], 4), Ok(14));
    assert_eq!(parse_size_header(&vec![0x00, 0x01, 0x00, 0x00], 4), Ok(65536));
    // A negative frame size is an unrecoverable framing violation.
    assert!(matches!(
        parse_size_header(&vec![0x80, 0x00, 0x00, 0x00], 4),
        Err(ClientErr::ShouldClose)
    ));
    assert!(matches!(
        parse_size_header(&vec![0xff, 0xff, 0xff, 0xff], 4),
        Err(ClientErr::ShouldClose)
    ));
}

#[test]
fn header_progress_decisions() {
    // Partial header bytes are kept, not dropped: the connection stays in
    // the header-awaiting state until all four have arrived.
    assert_eq!(header_progress(0), (ClientState::AwaitHeader, false));
    assert_eq!(header_progress(2), (ClientState::AwaitHeader, false));
    assert_eq!(header_progress(3), (ClientState::AwaitHeader, false));
    assert_eq!(header_progress(4), (ClientState::Normal, true));
}

#[test]
fn buffer_progress_decisions() {
    assert_eq!(buffer_progress(14, 6), (ClientState::Await(8), false));
    assert_eq!(buffer_progress(14, 0), (ClientState::Await(14), false));
    assert_eq!(buffer_progress(14, 14), (ClientState::Normal, true));
    assert_eq!(buffer_progress(0, 0), (ClientState::Normal, true));
}

#[test]
fn token_pool_reuses_retired_keys() {
    let mut pool = TokenPool::new(1);
    let a = pool.next_token();
    let b = pool.next_token();
    let c = pool.next_token();
    assert_eq!((a, b, c), (1, 2, 3));
    pool.close(b);
    let d = pool.next_token();
    assert_eq!(d, b);
    let e = pool.next_token();
    assert_eq!(e, 4);
    pool.close(a);
    pool.close(e);
    let f = pool.next_token();
    let g = pool.next_token();
    // Retired keys come back, newest first, before a new key is minted.
    assert_eq!((f, g), (e, a));
    assert_eq!(pool.next_token(), 5);
}

#[test]
fn handle_request_metadata() {
    let body = vec![
        0x00, 0x03, // api_key = 3
        0x00, 0x00, // api_version = 0
        0x00, 0x00, 0x00, 0x07, // correlation_id = 7
        0x00, 0x00, // client_id = ""
        0x00, 0x00, 0x00, 0x00, // topics = []
    ];
    let req = match request_message(&body, 0) {
        Parsed::Done(_, req) => req,
        r => panic!("metadata request did not decode: {:?}", r),
    };
    let resp = handle_request(req).expect("metadata must be answered");
    assert_eq!(resp.correlation_id, 7);
    match resp.response_payload {
        ResponsePayload::MetadataResponse(m) => {
            assert_eq!(m.brokers.len(), 1);
            assert_eq!(m.brokers[0].node_id, 1234);
            assert_eq!(m.brokers[0].host, b"localhost".to_vec());
            assert_eq!(m.brokers[0].port, 9092);
            assert_eq!(m.topics.len(), 1);
            assert_eq!(m.topics[0].topic_name, b"topic1".to_vec());
            assert_eq!(m.topics[0].partitions[0].leader, 1234);
        },
        p => panic!("wrong payload: {:?}", p),
    }
}

#[test]
fn handle_request_unsupported_is_error() {
    let req = RequestMessage {
        api_version: 0,
        correlation_id: 1,
        client_id: vec![],
        request_payload: RequestPayload::ConsumerMetadataRequest(vec![]),
    };
    assert_eq!(handle_request(req), Err(0));
}

#[test]
fn api_version_table_shape() {
    let table = api_version_0_9_0();
    assert_eq!(table.len(), 13);
    assert_eq!(table[0], proust_core::responses::api_versions::ApiVersion(0, 0, 0));
    assert_eq!(table[4], proust_core::responses::api_versions::ApiVersion(8, 0, 2));
}

#[test]
fn handle_frame_metadata_roundtrip() {
    // The frame body of the metadata scenario (size header already consumed
    // by the reassembly layer).
    let body = vec![
        0x00, 0x03, // api_key = 3
        0x00, 0x00, // api_version = 0
        0x00, 0x00, 0x00, 0x00, // correlation_id = 0
        0x00, 0x00, // client_id = ""
        0x00, 0x00, 0x00, 0x00, // topics = []
    ];
    let (out, err) = handle_frame(&body);
    assert_eq!(err, ClientErr::Continue);
    let out = out.expect("a metadata frame is answered");
    // The response is exactly framed: four length bytes, then that many.
    let declared = ((out[0] as u32) << 24) | ((out[1] as u32) << 16) | ((out[2] as u32) << 8)
        | (out[3] as u32);
    assert_eq!(declared as usize, out.len() - 4);
    // The correlation id is echoed.
    assert_eq!(&out[4..8], &[0x00, 0x00, 0x00, 0x00]);
}

#[test]
fn handle_frame_garbage_is_silent() {
    let (out, err) = handle_frame(&vec![0xde, 0xad]);
    assert_eq!(err, ClientErr::Continue);
    assert!(out.is_none());

    // A well-formed but unanswered request (fetch) produces no bytes and
    // keeps the connection open.
    let body = vec![
        0x00, 0x01, // api_key = 1 (fetch)
        0x00, 0x00, // api_version = 0
        0x00, 0x00, 0x00, 0x00, // correlation_id = 0
        0x00, 0x00, // client_id = ""
        0x00, 0x00, 0x00, 0x00, // replica_id = 0
        0x00, 0x00, 0x00, 0x00, // max_wait_time = 0
        0x00, 0x00, 0x00, 0x00, // min_bytes = 0
        0x00, 0x00, 0x00, 0x00, // topics = []
    ];
    let (out, err) = handle_frame(&body);
    assert_eq!(err, ClientErr::Continue);
    assert!(out.is_none());
}
