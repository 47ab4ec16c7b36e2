use proust_core::parser::message::{Message, OMsMessage};
use proust_core::responses::api_versions::{ApiVersion, ApiVersionsResponse, ser_api_versions_response};
use proust_core::responses::consumer_metadata::{ser_consumer_metadata_response, ConsumerMetadataResponse};
use proust_core::responses::fetch::{ser_fetch_response, ser_message, ser_message_set};
use proust_core::responses::metadata::{
    ser_broker, ser_metadata_response, ser_partition_metadata, ser_topic_metadata, Broker,
    MetadataResponse, PartitionMetadata, TopicMetadata,
};
use proust_core::responses::offset::ser_offset_response;
use proust_core::responses::offset_commit::ser_offset_commit_response;
use proust_core::responses::offset_fetch::ser_offset_fetch_response;
use proust_core::responses::primitive::{
    ser_i16, ser_i32, ser_i32_array, ser_i64, ser_i8, ser_kafka_bytes, ser_kafka_string,
};
use proust_core::responses::produce::ser_produce_response;
use proust_core::responses::response::{
    ser_response_message, ResponseMessage, ResponsePayload,
};

#[test]
fn ser_i8_test() {
    let mut v: Vec<u8> = vec![];
    ser_i8(127, &mut v);
    assert_eq!(&v[..], &[0x7f][..]);
    v.clear();
    ser_i8(-128, &mut v);
    assert_eq!(&v[..], &[0x80][..]);
}

#[test]
fn ser_i16_test() {
    let mut v: Vec<u8> = vec![];
    ser_i16(32767_i16, &mut v);
    assert_eq!(&v[..], &[0x7f, 0xff][..]);
    v.clear();
    ser_i16(-32768_i16, &mut v);
    assert_eq!(&v[..], &[0x80, 0x00][..]);
}

#[test]
fn ser_i32_test() {
    let mut v: Vec<u8> = vec![];
    ser_i32(2147483647_i32, &mut v);
    assert_eq!(&v[..], &[0x7f, 0xff, 0xff, 0xff]);
    v.clear();
    ser_i32(-2147483648_i32, &mut v);
    assert_eq!(&v[..], &[0x80, 0x00, 0x00, 0x00][..]);
}

#[test]
fn ser_i64_test() {
    let mut v: Vec<u8> = vec![];
    ser_i64(9223372036854775807_i64, &mut v);
    assert_eq!(&v[..], &[0x7f, 0xff, 0xff, 0xff, 0xff, 0xff, 0xff, 0xff]);
    v.clear();
    ser_i64(-9223372036854775808_i64, &mut v);
    assert_eq!(&v[..], &[0x80, 0x00, 0x00, 0x00, 0x00, 0x00, 0x00, 0x00]);
}

#[test]
fn ser_kafka_bytes_test() {
    let mut v: Vec<u8> = vec![];
    ser_kafka_bytes(&vec![], &mut v);
    assert_eq!(&v[..], &[0x00, 0x00, 0x00, 0x00][..]);
}

#[test]
fn ser_kafka_string_test() {
    let mut v: Vec<u8> = vec![];
    ser_kafka_string(&vec![], &mut v);
    assert_eq!(&v[..], &[0x00, 0x00][..]);
    v.clear();
    ser_kafka_string(&vec![65, 66, 67, 68], &mut v);
    assert_eq!(&v[..], &[0x00, 0x04, 65, 66, 67, 68][..]);
}

#[test]
fn ser_i32_array_test() {
    let mut v: Vec<u8> = vec![];
    ser_i32_array(&vec![127], &mut v);
    assert_eq!(&v[..], &[0x00, 0x00, 0x00, 0x01, 0x00, 0x00, 0x00, 0x7f][..]);
}

#[test]
fn ser_api_versions_response_test() {
    let mut v: Vec<u8> = vec![];

    ser_api_versions_response(
        &ApiVersionsResponse {
            error_code: 0,
            api_versions: vec![ApiVersion(0, 1, 2), ApiVersion(1, 0, 3)],
        },
        &mut v,
    );

    assert_eq!(
        &v[..],
        &[
            0x00, 0x00, // error_code = 0
            0x00, 0x00, 0x00, 0x0c, // table byte size
            0x00, 0x00, // api key = 0
            0x00, 0x01, // min version = 1
            0x00, 0x02, // max version = 2
            0x00, 0x01, // api key = 1
            0x00, 0x00, // min version = 0
            0x00, 0x03, // max version = 3
        ][..]
    );
}

#[test]
fn ser_consumer_metadata_response_test() {
    let mut v: Vec<u8> = vec![];
    ser_consumer_metadata_response(
        &ConsumerMetadataResponse {
            error_code: 0,
            coordinator_id: 1337,
            coordinator_host: vec![],
            coordinator_port: 9000,
        },
        &mut v,
    );
    assert_eq!(
        &v[..],
        &[
            0x00, 0x00, // error_code = 0
            0x00, 0x00, 0x05, 0x39, // coordinator_id = 1337
            0x00, 0x00, // coordinator_host = ""
            0x00, 0x00, 0x23, 0x28, // coordinator_port = 9000
        ][..]
    );
}

#[test]
fn ser_fetch_response_test() {
    let mut v: Vec<u8> = vec![];
    ser_fetch_response(
        &vec![
            (
                vec![],
                vec![
                    (
                        0,
                        0,
                        0,
                        vec![
                            OMsMessage {
                                offset: 0,
                                message: Message {
                                    crc: 0,
                                    magic_byte: 0,
                                    attributes: 0,
                                    key: vec![],
                                    value: vec![],
                                },
                            },
                        ],
                    ),
                ],
            ),
        ],
        &mut v,
    );

    assert_eq!(
        &v[..],
        &[
            0x00, 0x00, 0x00, 0x01, // topics array length = 1
            0x00, 0x00, // topic_name = ""
            0x00, 0x00, 0x00, 0x01, // partitions array length = 1
            0x00, 0x00, 0x00, 0x00, // partition_id = 0
            0x00, 0x00, // error_code = 0
            0x00, 0x00, 0x00, 0x00, 0x00, 0x00, 0x00, 0x00, // highwater_mark_offset = 0
            0x00, 0x00, 0x00, 0x1e, // message_set_size = 30
            0x00, 0x00, 0x00, 0x01, // message_set array length = 1
            0x00, 0x00, 0x00, 0x00, 0x00, 0x00, 0x00, 0x00, // offset = 0
            0x00, 0x00, 0x00, 0x0e, // message_size = 14
            0x00, 0x00, 0x00, 0x00, // crc = 0
            0x00, // magic_byte = 0
            0x00, // attributes = 0
            0x00, 0x00, 0x00, 0x00, // key = []
            0x00, 0x00, 0x00, 0x00, // value = []
        ][..]
    );
}

#[test]
fn ser_message_set_test() {
    let mut v: Vec<u8> = vec![];
    ser_message_set(
        &vec![
            OMsMessage {
                offset: 0,
                message: Message {
                    crc: 0,
                    magic_byte: 0,
                    attributes: 0,
                    key: vec![],
                    value: vec![],
                },
            },
        ],
        &mut v,
    );

    assert_eq!(
        &v[..],
        &[
            0x00, 0x00, 0x00, 0x01, // message_set array length = 1
            0x00, 0x00, 0x00, 0x00, 0x00, 0x00, 0x00, 0x00, // offset = 0
            0x00, 0x00, 0x00, 0x0e, // message_size = 14
            0x00, 0x00, 0x00, 0x00, // crc = 0
            0x00, // magic_byte = 0
            0x00, // attributes = 0
            0x00, 0x00, 0x00, 0x00, // key = []
            0x00, 0x00, 0x00, 0x00, // value = []
        ][..]
    );
}

#[test]
fn ser_message_test() {
    let mut v: Vec<u8> = vec![];
    ser_message(
        &Message { crc: 0, magic_byte: 0, attributes: 0, key: vec![], value: vec![] },
        &mut v,
    );

    assert_eq!(
        &v[..],
        &[
            0x00, 0x00, 0x00, 0x00, // crc = 0
            0x00, // magic_byte = 0
            0x00, // attributes = 0
            0x00, 0x00, 0x00, 0x00, // key = []
            0x00, 0x00, 0x00, 0x00, // value = []
        ][..]
    );
}

#[test]
fn ser_metadata_response_tests() {
    let mut v: Vec<u8> = vec![];
    ser_metadata_response(
        &MetadataResponse {
            brokers: vec![Broker { node_id: 0, host: vec![], port: 0 }],
            topics: vec![
                TopicMetadata {
                    topic_error_code: 0,
                    topic_name: vec![],
                    partitions: vec![
                        PartitionMetadata {
                            partition_error_code: 0,
                            partition_id: 0,
                            leader: 0,
                            replicas: vec![0],
                            isr: vec![0],
                        },
                    ],
                },
            ],
        },
        &mut v,
    );
    assert_eq!(
        &v[..],
        &[
            0x00, 0x00, 0x00, 0x01, // brokers array length = 1
            0x00, 0x00, 0x00, 0x00, // node_id = 0
            0x00, 0x00, // host = ""
            0x00, 0x00, 0x00, 0x00, // port = 0
            0x00, 0x00, 0x00, 0x01, // topics array length = 1
            0x00, 0x00, // topic_error_code = 0
            0x00, 0x00, // topic_name = ""
            0x00, 0x00, 0x00, 0x01, // partitions array length = 1
            0x00, 0x00, // partition_error_code = 0
            0x00, 0x00, 0x00, 0x00, // partition_id = 0
            0x00, 0x00, 0x00, 0x00, // leader = 0
            0x00, 0x00, 0x00, 0x01, // replicas = [0]
            0x00, 0x00, 0x00, 0x00, 0x00, 0x00, 0x00, 0x01, // isr = [0]
            0x00, 0x00, 0x00, 0x00,
        ][..]
    );
}

#[test]
fn ser_broker_tests() {
    let mut v: Vec<u8> = vec![];
    ser_broker(&Broker { node_id: 0, host: vec![], port: 0 }, &mut v);
    assert_eq!(
        &v[..],
        &[
            0x00, 0x00, 0x00, 0x00, // node_id = 0
            0x00, 0x00, // host = ""
            0x00, 0x00, 0x00, 0x00, // port = 0
        ][..]
    );
}

#[test]
fn ser_topic_metadata_tests() {
    let mut v: Vec<u8> = vec![];
    ser_topic_metadata(
        &TopicMetadata { topic_error_code: 0, topic_name: vec![], partitions: vec![] },
        &mut v,
    );
    assert_eq!(
        &v[..],
        &[
            0x00, 0x00, // topic_error_code = 0
            0x00, 0x00, // topic_name = ""
            0x00, 0x00, 0x00, 0x00, // partitions = []
        ][..]
    );
}

#[test]
fn ser_partition_metadata_tests() {
    let mut v: Vec<u8> = vec![];
    ser_partition_metadata(
        &PartitionMetadata {
            partition_error_code: 0,
            partition_id: 0,
            leader: 0,
            replicas: vec![0],
            isr: vec![0],
        },
        &mut v,
    );
    assert_eq!(
        &v[..],
        &[
            0x00, 0x00, // partition_error_code = 0
            0x00, 0x00, 0x00, 0x00, // partition_id = 0
            0x00, 0x00, 0x00, 0x00, // leader = 0
            0x00, 0x00, 0x00, 0x01, // replicas = [0]
            0x00, 0x00, 0x00, 0x00, 0x00, 0x00, 0x00, 0x01, // isr = [0]
            0x00, 0x00, 0x00, 0x00,
        ][..]
    );
}

#[test]
fn ser_offset_response_tests() {
    let mut v: Vec<u8> = vec![];
    ser_offset_response(&vec![(vec![], vec![(0, 0, vec![0])])], &mut v);
    assert_eq!(
        &v[..],
        &[
            0x00, 0x00, 0x00, 0x01, // topics array length = 1
            0x00, 0x00, // topic_name = ""
            0x00, 0x00, 0x00, 0x01, // partitions array length = 1
            0x00, 0x00, 0x00, 0x00, // partition_id = 0
            0x00, 0x00, // error_code = 0
            0x00, 0x00, 0x00, 0x01, // offsets array length = 1
            0x00, 0x00, 0x00, 0x00, 0x00, 0x00, 0x00, 0x00, // offset = 0
        ][..]
    );
}

#[test]
fn ser_offset_commit_response_tests() {
    let mut v: Vec<u8> = vec![];
    ser_offset_commit_response(&vec![(vec![], vec![(0, 0)])], &mut v);
    assert_eq!(
        &v[..],
        &[
            0x00, 0x00, 0x00, 0x01, // topics array length = 1
            0x00, 0x00, // topic_name = ""
            0x00, 0x00, 0x00, 0x01, // partitions array length = 1
            0x00, 0x00, 0x00, 0x00, // partition_id = 0
            0x00, 0x00, // error_code = 0
        ][..]
    );
}

#[test]
fn ser_offset_fetch_response_tests() {
    let mut v: Vec<u8> = vec![];
    ser_offset_fetch_response(&vec![(vec![], vec![(0, 0, vec![], 0)])], &mut v);
    assert_eq!(
        &v[..],
        &[
            0x00, 0x00, 0x00, 0x01, // topics array length = 1
            0x00, 0x00, // topic_name = ""
            0x00, 0x00, 0x00, 0x01, // partitions array length = 1
            0x00, 0x00, 0x00, 0x00, // partition_id = 0
            0x00, 0x00, 0x00, 0x00, 0x00, 0x00, 0x00, 0x00, // offset = 0
            0x00, 0x00, // metadata = ""
            0x00, 0x00, // error_code = 0
        ][..]
    );
}

#[test]
fn ser_produce_response_test() {
    let mut v: Vec<u8> = vec![];

    ser_produce_response(&vec![(vec![], vec![(127, 0, 1337)])], &mut v);

    assert_eq!(
        &v[..],
        &[
            0x00, 0x00, 0x00, 0x01, // array length = 1
            0x00, 0x00, // topic_name = ""
            0x00, 0x00, 0x00, 0x01, // array length = 1
            0x00, 0x00, 0x00, 0x7f, // partition_id = 127
            0x00, 0x00, // error_code = 0
            0x00, 0x00, 0x00, 0x00, 0x00, 0x00, 0x05, 0x39, // offset = 1337
        ][..]
    );
}

#[test]
fn ser_response_message_test() {
    let mut v: Vec<u8> = vec![];
    ser_response_message(
        &ResponseMessage {
            correlation_id: 0,
            response_payload: ResponsePayload::ConsumerMetadataResponse(
                ConsumerMetadataResponse {
                    error_code: 0,
                    coordinator_id: 1337,
                    coordinator_host: vec![],
                    coordinator_port: 9000,
                },
            ),
        },
        &mut v,
    );
    assert_eq!(
        &v[..],
        &[
            0x00, 0x00, 0x00, 0x10, // size = 16
            0x00, 0x00, 0x00, 0x00, // correlation_id = 0
            0x00, 0x00, // error_code = 0
            0x00, 0x00, 0x05, 0x39, // coordinator_id = 1337
            0x00, 0x00, // coordinator_host = ""
            0x00, 0x00, 0x23, 0x28, // coordinator_port = 9000
        ][..]
    );
}

#[test]
fn encode_is_deterministic_and_length_exact() {
    let make = || ResponseMessage {
        correlation_id: 42,
        response_payload: ResponsePayload::ProduceResponse(vec![(
            vec![116, 111, 112, 105, 99, 49],
            vec![(0, 0, 1337)],
        )]),
    };
    let mut a: Vec<u8> = vec![];
    let mut b: Vec<u8> = vec![];
    ser_response_message(&make(), &mut a);
    ser_response_message(&make(), &mut b);
    assert_eq!(a, b);
    // The leading four bytes always carry the byte length of what follows.
    let declared = ((a[0] as u32) << 24) | ((a[1] as u32) << 16) | ((a[2] as u32) << 8)
        | (a[3] as u32);
    assert_eq!(declared as usize, a.len() - 4);
}

#[test]
fn message_encode_decode_roundtrip() {
    // Encode a message, stamp it with the real checksum of its encoded body,
    // and decode it back: the decoder returns exactly the message.
    let draft = Message {
        crc: 0,
        magic_byte: 1,
        attributes: 2,
        key: vec![1, 2],
        value: vec![3, 4, 5],
    };
    let mut bytes: Vec<u8> = vec![];
    ser_message(&draft, &mut bytes);
    let checksum = crc::Crc::<u32>::new(&crc::CRC_32_ISO_HDLC).checksum(&bytes[4..]);
    let stamped = Message { crc: checksum as i32, ..draft };
    let mut encoded: Vec<u8> = vec![];
    ser_message(&stamped, &mut encoded);

    let decoded = proust_core::parser::message::message(&encoded, 0, encoded.len() as i32);
    assert_eq!(decoded, proust_core::parser::primitive::Parsed::Done(encoded.len(), stamped));
}
