use proust_core::parser::message::{
    message, message_set, partition_message_set, topic_message_set, Message, OMsMessage,
    PartitionMessageSet, TopicMessageSet,
};
use proust_core::parser::primitive::Parsed;
use proust_core::InputError;

#[test]
fn parse_message_without_key_tests() {
    let input = vec![
        0xfd, 0x6e, 0xbd, 0xdb, // crc
        0x00, // magic_byte = 0
        0x00, // attributes = 0
        0xff, 0xff, 0xff, 0xff, // empty key
        0x00, 0x00, 0x00, 0x02, // message size = 2
        0x68, 0x69, // message = 'hi' = (68, 69) in ASCII
    ];

    let result = message(&input, 0, input.len() as i32);

    // The four 0xff bytes are a -1 length: a null key. Null values are
    // unsupported, not silently read as data, so the decode reports
    // `NotImplemented` (the checksum, which covers the marker bytes, has
    // already passed).
    assert_eq!(result, Parsed::Fail(InputError::NotImplemented));
}

#[test]
fn parse_message_with_key_tests() {
    let input = vec![
        0x74, 0xd1, 0xed, 0x70, // crc
        0x00, // magic_byte = 0
        0x00, // attributes = 0
        0x00, 0x00, 0x00, 0x01, // key size = 1
        0x61, // key = 'a'
        0x00, 0x00, 0x00, 0x02, // message size = 2
        0x68, 0x69, // message = 'hi' = (68, 69) in ASCII
    ];

    let result = message(&input, 0, input.len() as i32);

    let expected = Message {
        crc: 0x74d1ed70u32 as i32,
        magic_byte: 0,
        attributes: 0,
        key: vec![0x61],
        value: vec![0x68, 0x69],
    };

    assert_eq!(result, Parsed::Done(17, expected));
}

fn empty_kv_message() -> Message {
    Message {
        crc: 0xe38a6876u32 as i32,
        magic_byte: 0,
        attributes: 0,
        key: vec![],
        value: vec![],
    }
}

#[test]
fn topic_message_set_tests() {
    let input = vec![
        0x00, 0x00, // topic_name = ""
        0x00, 0x00, 0x00, 0x01, // partitions array length = 1
        0x00, 0x00, 0x00, 0x01, // partition = 1
        0x00, 0x00, 0x00, 0x1a, // message_set size = 26
        0x00, 0x00, 0x00, 0x00, 0x00, 0x00, 0x00, 0x01, // offset = 1
        0x00, 0x00, 0x00, 0x0e, // message_size = 14
        0xe3, 0x8a, 0x68, 0x76, // crc
        0x00, // magic_byte = 0
        0x00, // attributes = 0
        0x00, 0x00, 0x00, 0x00, // key = []
        0x00, 0x00, 0x00, 0x00, // value = []
    ];
    let result = topic_message_set(&input, 0);
    let expected = TopicMessageSet {
        topic_name: vec![],
        partitions: vec![
            PartitionMessageSet {
                partition: 1,
                message_set: vec![OMsMessage { offset: 1, message: empty_kv_message() }],
            },
        ],
    };

    assert_eq!(result, Parsed::Done(40, expected));
}

#[test]
fn partition_message_set_tests() {
    let input = vec![
        0x00, 0x00, 0x00, 0x01, // partition = 1
        0x00, 0x00, 0x00, 0x1a, // message_set size = 26
        0x00, 0x00, 0x00, 0x00, 0x00, 0x00, 0x00, 0x01, // offset = 1
        0x00, 0x00, 0x00, 0x0e, // message_size = 14
        0xe3, 0x8a, 0x68, 0x76, // crc
        0x00, // magic_byte = 0
        0x00, // attributes = 0
        0x00, 0x00, 0x00, 0x00, // key = []
        0x00, 0x00, 0x00, 0x00, // value = []
    ];
    let result = partition_message_set(&input, 0);
    let expected = PartitionMessageSet {
        partition: 1,
        message_set: vec![OMsMessage { offset: 1, message: empty_kv_message() }],
    };

    assert_eq!(result, Parsed::Done(34, expected));
}

#[test]
fn message_set_tests() {
    let input = vec![
        0x00, 0x00, 0x00, 0x00, 0x00, 0x00, 0x00, 0x01, // offset = 1
        0x00, 0x00, 0x00, 0x0e, // message_size = 14
        0xe3, 0x8a, 0x68, 0x76, // crc
        0x00, // magic_byte = 0
        0x00, // attributes = 0
        0x00, 0x00, 0x00, 0x00, // key = []
        0x00, 0x00, 0x00, 0x00, // value = []
    ];
    let result = message_set(&input, 0, 26);
    let expected = vec![OMsMessage { offset: 1, message: empty_kv_message() }];

    assert_eq!(result, Parsed::Done(26, expected));
}

#[test]
fn message_set_trailing_tests() {
    let input = vec![
        0x00, 0x00, 0x00, 0x00, 0x00, 0x00, 0x00, 0x01, // offset = 1
        0x00, 0x00, 0x00, 0x0e, // message_size = 14
        0xe3, 0x8a, 0x68, 0x76, // crc
        0x00, // magic_byte = 0
        0x00, // attributes = 0
        0x00, 0x00, 0x00, 0x00, // key = []
        0x00, 0x00, 0x00, 0x00, // value = []
        0x00, 0x00, 0x00, 0x00, // trailing
    ];
    let result = message_set(&input, 0, 26);
    let expected = vec![OMsMessage { offset: 1, message: empty_kv_message() }];

    // The four trailing bytes lie beyond the declared window and are left
    // for the caller.
    assert_eq!(result, Parsed::Done(26, expected));
}

#[test]
fn message_set_too_short_tests() {
    let input = vec![
        0x00, 0x00, 0x00, 0x00, 0x00, 0x00, 0x00, 0x01, // offset = 1
        0x00, 0x00, 0x00, 0x0e, // message_size = 14
        0xe3, 0x8a, 0x68, 0x76, // crc
        0x00, // magic_byte = 0
        0x00, // attributes = 0
        0x00, 0x00, 0x00, 0x00, // key = []
        0x00, 0x00, 0x00, 0x00, // value = []
    ];
    let result = message_set(&input, 0, 32);

    assert_eq!(result, Parsed::Incomplete(32));
}

#[test]
fn message_set_too_long_tests() {
    let input = vec![
        0x00, 0x00, 0x00, 0x00, 0x00, 0x00, 0x00, 0x01, // offset = 1
        0x00, 0x00, 0x00, 0x0e, // message_size = 14
        0xe3, 0x8a, 0x68, 0x76, // crc
        0x00, // magic_byte = 0
        0x00, // attributes = 0
        0x00, 0x00, 0x00, 0x00, // key = []
        0x00, 0x00, 0x00, 0x00, // value = []
    ];
    let result = message_set(&input, 0, 20);

    // The 20-byte window cuts the one entry short: the decode reports how
    // much that entry needed rather than calling the message malformed.
    assert_eq!(result, Parsed::Incomplete(26));
}

#[test]
fn message_tests() {
    let input = vec![
        0xe3, 0x8a, 0x68, 0x76, // crc
        0x00, // magic_byte = 0
        0x00, // attributes = 0
        0x00, 0x00, 0x00, 0x00, // key = []
        0x00, 0x00, 0x00, 0x00, // value = []
    ];
    let result = message(&input, 0, 14);

    assert_eq!(result, Parsed::Done(14, empty_kv_message()));
}

#[test]
fn message_trailing_tests() {
    let input = vec![
        0xe3, 0x8a, 0x68, 0x76, // crc
        0x00, // magic_byte = 0
        0x00, // attributes = 0
        0x00, 0x00, 0x00, 0x00, // key = []
        0x00, 0x00, 0x00, 0x00, // value = []
        0x00, 0x00, 0x00, 0x00, // trailing data
    ];
    let result = message(&input, 0, 14);

    assert_eq!(result, Parsed::Done(14, empty_kv_message()));
}

#[test]
fn message_too_short_tests() {
    let input = vec![
        0xe3, 0x8a, 0x68, 0x76, // crc
        0x00, // magic_byte = 0
        0x00, // attributes = 0
        0x00, 0x00, 0x00, 0x00, // key = []
        0x00, 0x00, 0x00, 0x00, // value = []
    ];
    let result = message(&input, 0, 18);

    assert_eq!(result, Parsed::Incomplete(18));
}

#[test]
fn message_too_long_tests() {
    let input = vec![
        0xe3, 0x8a, 0x68, 0x76, // crc
        0x00, // magic_byte = 0
        0x00, // attributes = 0
        0x00, 0x00, 0x00, 0x00, // key = []
        0x00, 0x00, 0x00, 0x00, // value = []
    ];
    let result = message(&input, 0, 12);

    // The CRC doesn't include the last two bytes so the check fails.
    assert_eq!(result, Parsed::Fail(InputError::InvalidMessage));
}

#[test]
fn message_invalid_crc_tests() {
    let input = vec![
        0x00, 0x00, 0x00, 0x00, // invalid CRC
        0x00, // magic_byte = 0
        0x00, // attributes = 0
        0x00, 0x00, 0x00, 0x00, // key = []
        0x00, 0x00, 0x00, 0x00, // value = []
    ];
    let result = message(&input, 0, 14);

    assert_eq!(result, Parsed::Fail(InputError::InvalidMessage));
}

#[test]
fn message_negative_size() {
    let result = message(&vec![0x00, 0x00], 0, -3);
    assert_eq!(result, Parsed::Fail(InputError::InvalidMessageSize));
    let result = message_set(&vec![0x00, 0x00], 0, -3);
    assert_eq!(result, Parsed::Fail(InputError::InvalidMessageSetSize));
}

#[test]
fn message_mutation_breaks_crc() {
    // Flipping any byte after the CRC field without updating the CRC makes
    // the decode fail; the untouched message always decodes.
    let input = vec![
        0xe3, 0x8a, 0x68, 0x76, // crc
        0x00, // magic_byte = 0
        0x00, // attributes = 0
        0x00, 0x00, 0x00, 0x00, // key = []
        0x00, 0x00, 0x00, 0x00, // value = []
    ];
    assert!(matches!(message(&input, 0, 14), Parsed::Done(14, _)));
    for i in 4..14 {
        let mut mutated = input.clone();
        mutated[i] ^= 0x01;
        assert_eq!(
            message(&mutated, 0, 14),
            Parsed::Fail(InputError::InvalidMessage),
            "byte {} flipped",
            i
        );
    }
}
