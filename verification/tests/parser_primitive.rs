use proust_core::parser::metadata::topic_metadata_request;
use proust_core::parser::primitive::{be_i16, be_i32, be_i64, be_i8, kafka_bytes, kafka_string, Parsed};
use proust_core::{from_int, InputError};

#[test]
fn kafka_bytes_test() {
    assert_eq!(kafka_bytes(&vec![0x00, 0x00, 0x00, 0x00], 0), Parsed::Done(4, vec![]));
    assert_eq!(kafka_bytes(&vec![0x00, 0x00, 0x00, 0x01], 0), Parsed::Incomplete(1));
    assert_eq!(kafka_bytes(&vec![0x00, 0x00, 0x00, 0x01, 0x00], 0), Parsed::Done(5, vec![0x00]));
    assert_eq!(
        kafka_bytes(&vec![0x00, 0x00, 0x00, 0x01, 0x00, 0x00], 0),
        Parsed::Done(5, vec![0x00])
    );
}

#[test]
fn kafka_string_test() {
    assert_eq!(kafka_string(&vec![0x00, 0x00], 0), Parsed::Done(2, vec![]));
    assert_eq!(kafka_string(&vec![0x00, 0x01], 0), Parsed::Incomplete(1));
    assert_eq!(kafka_string(&vec![0x00, 0x02, 65, 66], 0), Parsed::Done(4, vec![65, 66]));
    assert_eq!(kafka_string(&vec![0x00, 0x01, 65, 0x00], 0), Parsed::Done(3, vec![65]));
    assert_eq!(kafka_string(&vec![0x80, 0x00], 0), Parsed::Fail(InputError::ParserError));
}

#[test]
fn kafka_string_rejects_bad_utf8() {
    // A lone continuation byte, a truncated two-byte sequence, and an
    // overlong encoding of '/' are all rejected as parse errors.
    assert_eq!(kafka_string(&vec![0x00, 0x01, 0xbf], 0), Parsed::Fail(InputError::ParserError));
    assert_eq!(kafka_string(&vec![0x00, 0x01, 0xc3], 0), Parsed::Fail(InputError::ParserError));
    assert_eq!(
        kafka_string(&vec![0x00, 0x02, 0xc0, 0xaf], 0),
        Parsed::Fail(InputError::ParserError)
    );
    // An encoded surrogate is rejected; a four-byte scalar passes.
    assert_eq!(
        kafka_string(&vec![0x00, 0x03, 0xed, 0xa0, 0x80], 0),
        Parsed::Fail(InputError::ParserError)
    );
    assert_eq!(
        kafka_string(&vec![0x00, 0x04, 0xf0, 0x9f, 0x98, 0x80], 0),
        Parsed::Done(6, vec![0xf0, 0x9f, 0x98, 0x80])
    );
    // A two-byte sequence that is legal UTF-8 passes.
    assert_eq!(kafka_string(&vec![0x00, 0x02, 0xc3, 0xa9], 0), Parsed::Done(4, vec![0xc3, 0xa9]));
}

#[test]
fn kafka_bytes_negative_lengths() {
    // Exactly -1 is the not-yet-supported null value; anything below is
    // structurally invalid.
    assert_eq!(
        kafka_bytes(&vec![0xff, 0xff, 0xff, 0xff], 0),
        Parsed::Fail(InputError::NotImplemented)
    );
    assert_eq!(
        kafka_bytes(&vec![0xff, 0xff, 0xff, 0xfe], 0),
        Parsed::Fail(InputError::ParserError)
    );
    assert_eq!(kafka_string(&vec![0xff, 0xff], 0), Parsed::Fail(InputError::NotImplemented));
    assert_eq!(kafka_string(&vec![0xff, 0xfe], 0), Parsed::Fail(InputError::ParserError));
}

#[test]
fn kafka_array_negative_count() {
    // A negative element count is rejected before any element is read.
    assert_eq!(
        topic_metadata_request(&vec![0x80, 0x00, 0x00, 0x00], 0),
        Parsed::Fail(InputError::ParserError)
    );
    assert_eq!(
        topic_metadata_request(&vec![0xff, 0xff, 0xff, 0xff], 0),
        Parsed::Fail(InputError::ParserError)
    );
}

#[test]
fn kafka_array_short_elements() {
    // One declared string with no bytes for it: four header bytes were
    // consumed and the element's own two-byte length is still needed.
    assert_eq!(topic_metadata_request(&vec![0x00, 0x00, 0x00, 0x01], 0), Parsed::Incomplete(6));
    assert_eq!(topic_metadata_request(&vec![0x00, 0x00, 0x00, 0x00], 0), Parsed::Done(4, vec![]));
}

#[test]
fn be_int_decoders() {
    assert_eq!(be_i8(&vec![0x80], 0), Parsed::Done(1, -128));
    assert_eq!(be_i8(&vec![0x7f], 0), Parsed::Done(1, 127));
    assert_eq!(be_i16(&vec![0x80, 0x00], 0), Parsed::Done(2, -32768));
    assert_eq!(be_i16(&vec![0x7f, 0xff], 0), Parsed::Done(2, 32767));
    assert_eq!(be_i32(&vec![0x80, 0x00, 0x00, 0x00], 0), Parsed::Done(4, -2147483648));
    assert_eq!(be_i32(&vec![0x00, 0x00, 0x05, 0x39], 0), Parsed::Done(4, 1337));
    assert_eq!(
        be_i64(&vec![0xff, 0xff, 0xff, 0xff, 0xff, 0xff, 0xff, 0xff], 0),
        Parsed::Done(8, -1)
    );
    assert_eq!(be_i64(&vec![0x00, 0x00], 0), Parsed::Incomplete(8));
    assert_eq!(be_i32(&vec![0x00], 0), Parsed::Incomplete(4));
    assert_eq!(be_i16(&vec![], 0), Parsed::Incomplete(2));
}

#[test]
fn error_codes_roundtrip() {
    let all = [
        InputError::ParserError,
        InputError::NotImplemented,
        InputError::InvalidRequestSize,
        InputError::InvalidMessageSetSize,
        InputError::InvalidMessageSize,
        InputError::InvalidMessage,
    ];
    for e in all {
        assert_eq!(from_int(e.to_int()), Some(e));
    }
    assert_eq!(from_int(0), None);
    assert_eq!(from_int(7), None);
    assert_eq!(InputError::ParserError.to_int(), 1);
}
