use proust_core::parser::consumer_metadata::consumer_metadata_request;
use proust_core::parser::fetch::{fetch_request, FetchRequest, PartitionFetch, TopicFetch};
use proust_core::parser::message::{Message, OMsMessage, PartitionMessageSet, TopicMessageSet};
use proust_core::parser::metadata::topic_metadata_request;
use proust_core::parser::offset::{offset_request, OffsetRequest, PartitionOffset, TopicOffset};
use proust_core::parser::offset_commit::{
    offset_commit_request_v0, offset_commit_request_v1, offset_commit_request_v2,
    OffsetCommitRequestV0, OffsetCommitRequestV1, OffsetCommitRequestV2, PartitionOffsetCommitV0,
    PartitionOffsetCommitV1, TopicOffsetCommitV0, TopicOffsetCommitV1,
};
use proust_core::parser::offset_fetch::{
    offset_fetch_request, OffsetFetchRequest, PartitionOffsetFetch, TopicOffsetFetch,
};
use proust_core::parser::primitive::Parsed;
use proust_core::parser::produce::{produce_request, ProduceRequest};
use proust_core::parser::request::{
    request_message_with_length, RequestMessage, RequestPayload,
};
use proust_core::InputError;

#[test]
fn consumer_metadata_request_tests() {
    let input = vec![0x00, 0x00]; // ""
    let result = consumer_metadata_request(&input, 0);
    assert_eq!(result, Parsed::Done(2, vec![]));
}

#[test]
fn topic_metadata_request_tests() {
    let input = vec![0x00, 0x00, 0x00, 0x01, 0x00, 0x00]; // [""]
    let result = topic_metadata_request(&input, 0);
    assert_eq!(result, Parsed::Done(6, vec![vec![]]));
}

#[test]
fn fetch_request_tests() {
    let input = vec![
        0x00, 0x00, 0x00, 0x00, // replica_id = 0
        0x00, 0x00, 0x00, 0x00, // max_wait_time = 0
        0x00, 0x00, 0x00, 0x00, // min_bytes = 0
        0x00, 0x00, 0x00, 0x01, // topics array length
        0x00, 0x00, // topic_name = ""
        0x00, 0x00, 0x00, 0x01, // partitions array length
        0x00, 0x00, 0x00, 0x00, // partition = 0
        0x00, 0x00, 0x00, 0x00, 0x00, 0x00, 0x00, 0x00, // fetch_offset = 0
        0x00, 0x00, 0x00, 0x00, // max_bytes = 0
    ];
    let result = fetch_request(&input, 0);
    let expected = FetchRequest {
        replica_id: 0,
        max_wait_time: 0,
        min_bytes: 0,
        topics: vec![
            TopicFetch {
                topic_name: vec![],
                partitions: vec![PartitionFetch { partition: 0, fetch_offset: 0, max_bytes: 0 }],
            },
        ],
    };

    assert_eq!(result, Parsed::Done(38, expected));
}

#[test]
fn offset_request_tests() {
    let input = vec![
        0x00, 0x00, 0x00, 0x00, // replica_id = 0
        0x00, 0x00, 0x00, 0x01, // topics array length
        0x00, 0x00, // topic_name = ""
        0x00, 0x00, 0x00, 0x01, // partitions array length
        0x00, 0x00, 0x00, 0x00, // partition = 0
        0x00, 0x00, 0x00, 0x00, 0x00, 0x00, 0x00, 0x00, // time = 0
        0x00, 0x00, 0x00, 0x00, // max_number_of_offsets = 0
    ];
    let result = offset_request(&input, 0);
    let expected = OffsetRequest {
        replica_id: 0,
        topics: vec![
            TopicOffset {
                topic_name: vec![],
                partitions: vec![
                    PartitionOffset { partition: 0, time: 0, max_number_of_offsets: 0 },
                ],
            },
        ],
    };

    assert_eq!(result, Parsed::Done(30, expected));
}

#[test]
fn offset_request_v0_tests() {
    let input = vec![
        0x00, 0x00, // consumer_group = ""
        0x00, 0x00, 0x00, 0x01, // topics array length
        0x00, 0x00, // topic_name = ""
        0x00, 0x00, 0x00, 0x01, // partitions array length
        0x00, 0x00, 0x00, 0x00, // partition = 0
        0x00, 0x00, 0x00, 0x00, 0x00, 0x00, 0x00, 0x00, // offset = 0
        0x00, 0x00, // metadata = ""
    ];
    let result = offset_commit_request_v0(&input, 0);
    let expected = OffsetCommitRequestV0 {
        consumer_group: vec![],
        topics: vec![
            TopicOffsetCommitV0 {
                topic_name: vec![],
                partitions: vec![
                    PartitionOffsetCommitV0 { partition: 0, offset: 0, metadata: vec![] },
                ],
            },
        ],
    };

    assert_eq!(result, Parsed::Done(26, expected));
}

#[test]
fn offset_request_v1_tests() {
    let input = vec![
        0x00, 0x00, // consumer_group = ""
        0x00, 0x00, 0x00, 0x00, // consumer_group_generation_id = 0
        0x00, 0x00, // consumer_id = ""
        0x00, 0x00, 0x00, 0x01, // topics array length
        0x00, 0x00, // topic_name = ""
        0x00, 0x00, 0x00, 0x01, // partitions array length
        0x00, 0x00, 0x00, 0x00, // partition = 0
        0x00, 0x00, 0x00, 0x00, 0x00, 0x00, 0x00, 0x00, // offset = 0
        0x00, 0x00, 0x00, 0x00, 0x00, 0x00, 0x00, 0x00, // timestamp = 0
        0x00, 0x00, // metadata = ""
    ];
    let result = offset_commit_request_v1(&input, 0);
    let expected = OffsetCommitRequestV1 {
        consumer_group: vec![],
        consumer_group_generation_id: 0,
        consumer_id: vec![],
        topics: vec![
            TopicOffsetCommitV1 {
                topic_name: vec![],
                partitions: vec![
                    PartitionOffsetCommitV1 {
                        partition: 0,
                        offset: 0,
                        timestamp: 0,
                        metadata: vec![],
                    },
                ],
            },
        ],
    };

    assert_eq!(result, Parsed::Done(40, expected));
}

#[test]
fn offset_request_v2_tests() {
    let input = vec![
        0x00, 0x00, // consumer_group = ""
        0x00, 0x00, 0x00, 0x00, // consumer_group_generation_id = 0
        0x00, 0x00, // consumer_id = ""
        0x00, 0x00, 0x00, 0x00, 0x00, 0x00, 0x00, 0x00, // retention_time = 0
        0x00, 0x00, 0x00, 0x01, // topics array length
        0x00, 0x00, // topic_name = ""
        0x00, 0x00, 0x00, 0x01, // partitions array length
        0x00, 0x00, 0x00, 0x00, // partition = 0
        0x00, 0x00, 0x00, 0x00, 0x00, 0x00, 0x00, 0x00, // offset = 0
        0x00, 0x00, // metadata = ""
    ];
    let result = offset_commit_request_v2(&input, 0);
    let expected = OffsetCommitRequestV2 {
        consumer_group: vec![],
        consumer_group_generation_id: 0,
        consumer_id: vec![],
        retention_time: 0,
        topics: vec![
            TopicOffsetCommitV0 {
                topic_name: vec![],
                partitions: vec![
                    PartitionOffsetCommitV0 { partition: 0, offset: 0, metadata: vec![] },
                ],
            },
        ],
    };

    assert_eq!(result, Parsed::Done(40, expected));
}

#[test]
fn offset_fetch_offset_request_tests() {
    let input = vec![
        0x00, 0x00, // consumer_group = ""
        0x00, 0x00, 0x00, 0x01, // topics array length
        0x00, 0x00, // topic_name = ""
        0x00, 0x00, 0x00, 0x01, // partitions array length
        0x00, 0x00, 0x00, 0x00, // partition = 0
    ];
    let result = offset_fetch_request(&input, 0);
    let expected = OffsetFetchRequest {
        consumer_group: vec![],
        topics: vec![
            TopicOffsetFetch {
                topic_name: vec![],
                partitions: vec![PartitionOffsetFetch { partition: 0 }],
            },
        ],
    };

    assert_eq!(result, Parsed::Done(16, expected));
}

#[test]
fn produce_request_tests() {
    let input = vec![
        0x00, 0x00, // required_acks = 0
        0x00, 0x00, 0x00, 0x00, // timeout = 0
        0x00, 0x00, 0x00, 0x01, // TopicMessageSet array length
        0x00, 0x00, // topic_name = ""
        0x00, 0x00, 0x00, 0x01, // PartitionMessageSet array length
        0x00, 0x00, 0x00, 0x00, // partition = 0
        0x00, 0x00, 0x00, 0x1a, // message_set_size = 26
        0x00, 0x00, 0x00, 0x00, 0x00, 0x00, 0x00, 0x00, // offset = 0
        0x00, 0x00, 0x00, 0x0e, // message_size = 14
        0xe3, 0x8a, 0x68, 0x76, // crc
        0x00, // magic_byte = 0
        0x00, // attributes = 0
        0x00, 0x00, 0x00, 0x00, // key = []
        0x00, 0x00, 0x00, 0x00, // value = []
    ];
    let result = produce_request(&input, 0);

    let expected = ProduceRequest {
        required_acks: 0,
        timeout: 0,
        topics: vec![
            TopicMessageSet {
                topic_name: vec![],
                partitions: vec![
                    PartitionMessageSet {
                        partition: 0,
                        message_set: vec![
                            OMsMessage {
                                offset: 0,
                                message: Message {
                                    crc: 0xe38a6876u32 as i32,
                                    magic_byte: 0,
                                    attributes: 0,
                                    key: vec![],
                                    value: vec![],
                                },
                            },
                        ],
                    },
                ],
            },
        ],
    };

    assert_eq!(result, Parsed::Done(50, expected));
}

#[test]
fn request_message_test() {
    let input = vec![
        0x00, 0x00, 0x00, 0x0e, // size = 14
        0x00, 0x03, // api_key = 3
        0x00, 0x00, // api_version = 0
        0x00, 0x00, 0x00, 0x00, // correlation_id = 0
        0x00, 0x00, // client_id = ""
        0x00, 0x00, 0x00, 0x00, // request_payload = []
    ];
    let result = request_message_with_length(&input, 0);
    let expected = RequestMessage {
        api_version: 0,
        correlation_id: 0,
        client_id: vec![],
        request_payload: RequestPayload::MetadataRequest(vec![]),
    };

    assert_eq!(result, Parsed::Done(18, expected));
}

#[test]
fn request_message_wrong_size_test() {
    let input = vec![
        0x80, 0x00, 0x00, 0x00, // negative size
        0x00, 0x03, // api_key = 3
        0x00, 0x00, // api_version = 0
        0x00, 0x00, 0x00, 0x00, // correlation_id = 0
        0x00, 0x00, // client_id = ""
        0x00, 0x00, 0x00, 0x00, // request_payload = []
    ];
    let result = request_message_with_length(&input, 0);

    assert_eq!(result, Parsed::Fail(InputError::InvalidRequestSize));
}

#[test]
fn request_message_trailing_tests() {
    let input = vec![
        0x00, 0x00, 0x00, 0x0e, // size = 14
        0x00, 0x03, // api_key = 3
        0x00, 0x00, // api_version = 0
        0x00, 0x00, 0x00, 0x00, // correlation_id = 0
        0x00, 0x00, // client_id = ""
        0x00, 0x00, 0x00, 0x00, // request_payload = []
        0x00, 0x00, 0x00, 0x00, // trailing data
    ];
    let result = request_message_with_length(&input, 0);
    let expected = RequestMessage {
        api_version: 0,
        correlation_id: 0,
        client_id: vec![],
        request_payload: RequestPayload::MetadataRequest(vec![]),
    };

    // The frame ends after its declared fourteen body bytes; the four
    // trailing bytes stay untouched.
    assert_eq!(result, Parsed::Done(18, expected));
}

#[test]
fn request_message_too_short_tests() {
    let input = vec![
        0x00, 0x00, 0x00, 0x12, // size = 18
        0x00, 0x03, // api_key = 3
        0x00, 0x00, // api_version = 0
        0x00, 0x00, 0x00, 0x00, // correlation_id = 0
        0x00, 0x00, // client_id = ""
        0x00, 0x00, 0x00, 0x00, // request_payload = []
    ];
    let result = request_message_with_length(&input, 0);

    assert_eq!(result, Parsed::Incomplete(18));
}

#[test]
fn request_message_too_long_tests() {
    let input = vec![
        0x00, 0x00, 0x00, 0x0c, // size = 12
        0x00, 0x03, // api_key = 3
        0x00, 0x00, // api_version = 0
        0x00, 0x00, 0x00, 0x00, // correlation_id = 0
        0x00, 0x00, // client_id = ""
        0x00, 0x00, 0x00, 0x00, // request_payload = []
    ];
    let result = request_message_with_length(&input, 0);

    // Fails trying to read the payload's four-byte array count inside the
    // twelve-byte window.
    assert_eq!(result, Parsed::Incomplete(14));
}

#[test]
fn produce_with_zero_crc_fails() {
    // A produce request whose one message has every CRC byte zero: the
    // checksum of the all-zero body is not zero, so the message is invalid.
    let input = vec![
        0x00, 0x00, // required_acks = 0
        0x00, 0x00, 0x00, 0x00, // timeout = 0
        0x00, 0x00, 0x00, 0x01, // one topic
        0x00, 0x00, // topic_name = ""
        0x00, 0x00, 0x00, 0x01, // one partition
        0x00, 0x00, 0x00, 0x00, // partition = 0
        0x00, 0x00, 0x00, 0x1a, // message_set_size = 26
        0x00, 0x00, 0x00, 0x00, 0x00, 0x00, 0x00, 0x00, // offset = 0
        0x00, 0x00, 0x00, 0x0e, // message_size = 14
        0x00, 0x00, 0x00, 0x00, // crc = 0
        0x00, // magic_byte = 0
        0x00, // attributes = 0
        0x00, 0x00, 0x00, 0x00, // key = []
        0x00, 0x00, 0x00, 0x00, // value = []
    ];
    let result = produce_request(&input, 0);

    assert_eq!(result, Parsed::Fail(InputError::InvalidMessage));
}

#[test]
fn unsupported_api_keys() {
    // api_key 4 (a control API) inside a well-formed frame: recognized but
    // unsupported.
    let input = vec![
        0x00, 0x00, 0x00, 0x0a, // size = 10
        0x00, 0x04, // api_key = 4
        0x00, 0x00, // api_version = 0
        0x00, 0x00, 0x00, 0x00, // correlation_id = 0
        0x00, 0x00, // client_id = ""
    ];
    assert_eq!(
        request_message_with_length(&input, 0),
        Parsed::Fail(InputError::NotImplemented)
    );

    // An unrecognized api_key is unsupported too, never a branch that
    // mis-reads the stream.
    let input = vec![
        0x00, 0x00, 0x00, 0x0a, // size = 10
        0x00, 0x63, // api_key = 99
        0x00, 0x00, // api_version = 0
        0x00, 0x00, 0x00, 0x00, // correlation_id = 0
        0x00, 0x00, // client_id = ""
    ];
    assert_eq!(
        request_message_with_length(&input, 0),
        Parsed::Fail(InputError::NotImplemented)
    );

    // So is a key the version table advertises but no grammar serves yet.
    let input = vec![
        0x00, 0x00, 0x00, 0x0a, // size = 10
        0x00, 0x0d, // api_key = 13
        0x00, 0x00, // api_version = 0
        0x00, 0x00, 0x00, 0x00, // correlation_id = 0
        0x00, 0x00, // client_id = ""
    ];
    assert_eq!(
        request_message_with_length(&input, 0),
        Parsed::Fail(InputError::NotImplemented)
    );
}

#[test]
fn offset_commit_unsupported_version() {
    // api_key 8 with an api_version outside 0..=2 is a parse error.
    let input = vec![
        0x00, 0x00, 0x00, 0x0a, // size = 10
        0x00, 0x08, // api_key = 8
        0x00, 0x03, // api_version = 3
        0x00, 0x00, 0x00, 0x00, // correlation_id = 0
        0x00, 0x00, // client_id = ""
    ];
    assert_eq!(request_message_with_length(&input, 0), Parsed::Fail(InputError::ParserError));
}
