//! The nested message / message-set format carried by produce and fetch
//! payloads: offset-tagged messages with a CRC-32 check, magic byte,
//! attributes, key and value. Each level slices exactly its declared length
//! before decoding, so truncation and over-length framing surface at the
//! earliest level that can see them.

use vstd::prelude::*;

use crate::errors::InputError;
use crate::num::{be_i32_at, i32_to_u32, u8_to_i8};
use crate::num::{i32_as_u32, u8_as_i8};
use crate::parser::primitive::{
    be_i32, be_i64, elems_combine, kafka_array, kafka_bytes, kafka_string, lemma_combine_empty,
    lemma_seq_deep_push, lemma_vec_deep_view, lemma_vec_u8_deep_view, parse_bounds, read_i32,
    spec_be_i32, spec_be_i64, spec_kafka_array, spec_kafka_bytes, spec_kafka_string, subvec,
    wire_pos, Parsed, SpecParsed, MAX_WIRE,
};

verus! {

/// The checksum the protocol stores in front of every message body.
pub uninterp spec fn crc32_of(s: Seq<u8>) -> u32;

/// Relies on the `crc` crate's CRC-32/ISO-HDLC (the IEEE polynomial,
/// reflected, init and xorout `0xffffffff`): the checksum of a byte slice is a
/// function of those bytes alone.
#[verifier::external_body]
fn checksum_ieee(bytes: &Vec<u8>) -> (r: u32)
    ensures
        r == crc32_of(bytes@),
{
    crc::Crc::<u32>::new(&crc::CRC_32_ISO_HDLC).checksum(bytes.as_slice())
}

/// One decoded message. `crc` is the stored checksum, already validated
/// against the bytes from the magic byte to the end of the value.
#[derive(Debug, PartialEq)]
pub struct Message {
    pub crc: i32,
    pub magic_byte: i8,
    pub attributes: i8,
    pub key: Vec<u8>,
    pub value: Vec<u8>,
}

#[verifier::ext_equal]
pub struct MessageV {
    pub crc: i32,
    pub magic_byte: i8,
    pub attributes: i8,
    pub key: Seq<u8>,
    pub value: Seq<u8>,
}

impl DeepView for Message {
    type V = MessageV;

    open spec fn deep_view(&self) -> MessageV {
        MessageV {
            crc: self.crc,
            magic_byte: self.magic_byte,
            attributes: self.attributes,
            key: self.key@,
            value: self.value@,
        }
    }
}

/// One message-set entry: a message tagged with its offset.
#[derive(Debug, PartialEq)]
pub struct OMsMessage {
    pub offset: i64,
    pub message: Message,
}

#[verifier::ext_equal]
pub struct OMsMessageV {
    pub offset: i64,
    pub message: MessageV,
}

impl DeepView for OMsMessage {
    type V = OMsMessageV;

    open spec fn deep_view(&self) -> OMsMessageV {
        OMsMessageV { offset: self.offset, message: self.message.deep_view() }
    }
}

pub type MessageSet = Vec<OMsMessage>;

/// A message-set for one partition.
#[derive(Debug, PartialEq)]
pub struct PartitionMessageSet {
    pub partition: i32,
    pub message_set: MessageSet,
}

#[verifier::ext_equal]
pub struct PartitionMessageSetV {
    pub partition: i32,
    pub message_set: Seq<OMsMessageV>,
}

impl DeepView for PartitionMessageSet {
    type V = PartitionMessageSetV;

    open spec fn deep_view(&self) -> PartitionMessageSetV {
        PartitionMessageSetV {
            partition: self.partition,
            message_set: self.message_set.deep_view(),
        }
    }
}

/// The message-sets of one topic.
#[derive(Debug, PartialEq)]
pub struct TopicMessageSet {
    pub topic_name: Vec<u8>,
    pub partitions: Vec<PartitionMessageSet>,
}

#[verifier::ext_equal]
pub struct TopicMessageSetV {
    pub topic_name: Seq<u8>,
    pub partitions: Seq<PartitionMessageSetV>,
}

impl DeepView for TopicMessageSet {
    type V = TopicMessageSetV;

    open spec fn deep_view(&self) -> TopicMessageSetV {
        TopicMessageSetV {
            topic_name: self.topic_name@,
            partitions: self.partitions.deep_view(),
        }
    }
}

/// The tail of a message once its key is known: the value, then the end of
/// the window, exactly.
pub open spec fn spec_message_after_key(w: Seq<u8>, kp: int, key: Seq<u8>) -> SpecParsed<
    MessageV,
> {
    match spec_kafka_bytes(w, kp) {
        SpecParsed::Done(vp, val) => if vp == w.len() {
            SpecParsed::Done(
                vp,
                MessageV {
                    crc: be_i32_at(w, 0),
                    magic_byte: u8_to_i8(w[4]),
                    attributes: u8_to_i8(w[5]),
                    key: key,
                    value: val,
                },
            )
        } else {
            SpecParsed::Fail(InputError::ParserError)
        },
        SpecParsed::Incomplete(k) => SpecParsed::Incomplete(kp + k),
        SpecParsed::Fail(e) => SpecParsed::Fail(e),
    }
}

/// One message inside its exact window `w`: the stored CRC must equal the
/// checksum of everything after it, and the value must end exactly at the
/// window's end. Key and value follow the length-prefix sign rules, so a
/// null (-1) key or value surfaces as `NotImplemented`, never as bytes.
pub open spec fn spec_message_body(w: Seq<u8>) -> SpecParsed<MessageV> {
    if w.len() < 4 {
        SpecParsed::Incomplete(4)
    } else if i32_to_u32(be_i32_at(w, 0)) != crc32_of(w.subrange(4, w.len() as int)) {
        SpecParsed::Fail(InputError::InvalidMessage)
    } else if w.len() < 5 {
        SpecParsed::Incomplete(5)
    } else if w.len() < 6 {
        SpecParsed::Incomplete(6)
    } else {
        match spec_kafka_bytes(w, 6) {
            SpecParsed::Done(kp, key) => spec_message_after_key(w, kp, key),
            SpecParsed::Incomplete(k) => SpecParsed::Incomplete(6 + k),
            SpecParsed::Fail(e) => SpecParsed::Fail(e),
        }
    }
}

/// A message of declared length `size` at `pos`: exactly `size` bytes are
/// sliced (a negative size is `InvalidMessageSize`, a size beyond the input
/// reports `size` as needed) and decoded as `spec_message_body`.
pub open spec fn spec_message(s: Seq<u8>, pos: int, size: i32) -> SpecParsed<MessageV> {
    if size < 0 {
        SpecParsed::Fail(InputError::InvalidMessageSize)
    } else if s.len() - pos < size {
        SpecParsed::Incomplete(size as int)
    } else {
        match spec_message_body(s.subrange(pos, pos + size)) {
            SpecParsed::Done(_, m) => SpecParsed::Done(pos + size, m),
            SpecParsed::Incomplete(k) => SpecParsed::Incomplete(k),
            SpecParsed::Fail(e) => SpecParsed::Fail(e),
        }
    }
}

fn message_body(w: &Vec<u8>) -> (r: Parsed<Message>)
    requires
        w@.len() <= MAX_WIRE,
    ensures
        r@ == spec_message_body(w@),
        parse_bounds(r@, w@.len() as int, 0),
{
    broadcast use lemma_vec_u8_deep_view;

    let len = w.len();
    if len < 4 {
        return Parsed::Incomplete(4);
    }
    let given = read_i32(w, 0);
    let body = subvec(w, 4, len);
    let computed = checksum_ieee(&body);
    if i32_as_u32(given) != computed {
        return Parsed::Fail(InputError::InvalidMessage);
    }
    if len < 5 {
        return Parsed::Incomplete(5);
    }
    if len < 6 {
        return Parsed::Incomplete(6);
    }
    let magic_byte = u8_as_i8(w[4]);
    let attributes = u8_as_i8(w[5]);
    let (kp, key): (usize, Vec<u8>) = match kafka_bytes(w, 6) {
        Parsed::Done(kp, key) => (kp, key),
        Parsed::Incomplete(k) => {
            return Parsed::Incomplete(6 + k);
        },
        Parsed::Fail(e) => {
            return Parsed::Fail(e);
        },
    };
    match kafka_bytes(w, kp) {
        Parsed::Done(vp, value) => {
            if vp == len {
                Parsed::Done(vp, Message { crc: given, magic_byte, attributes, key, value })
            } else {
                Parsed::Fail(InputError::ParserError)
            }
        },
        Parsed::Incomplete(k) => Parsed::Incomplete(kp + k),
        Parsed::Fail(e) => Parsed::Fail(e),
    }
}

/// One message of declared length `size`, sliced from `pos` before any field
/// or checksum is read.
pub fn message(input: &Vec<u8>, pos: usize, size: i32) -> (r: Parsed<Message>)
    requires
        wire_pos(input@, pos as int),
    ensures
        r@ == spec_message(input@, pos as int, size),
        parse_bounds(r@, input@.len() as int, pos as int),
{
    if size < 0 {
        return Parsed::Fail(InputError::InvalidMessageSize);
    }
    let sz = size as usize;
    if input.len() - pos < sz {
        return Parsed::Incomplete(sz);
    }
    let w = subvec(input, pos, pos + sz);
    match message_body(&w) {
        Parsed::Done(_, m) => Parsed::Done(pos + sz, m),
        Parsed::Incomplete(k) => Parsed::Incomplete(k),
        Parsed::Fail(e) => Parsed::Fail(e),
    }
}

/// One message-set entry: an eight-byte offset, a four-byte message size, and
/// the message itself.
pub open spec fn spec_o_ms_message(s: Seq<u8>, pos: int) -> SpecParsed<OMsMessageV> {
    match spec_be_i64(s, pos) {
        SpecParsed::Done(p1, off) => match spec_be_i32(s, p1) {
            SpecParsed::Done(p2, msize) => match spec_message(s, p2, msize) {
                SpecParsed::Done(n, m) => SpecParsed::Done(
                    n,
                    OMsMessageV { offset: off, message: m },
                ),
                SpecParsed::Incomplete(k) => SpecParsed::Incomplete((p2 - pos) + k),
                SpecParsed::Fail(e) => SpecParsed::Fail(e),
            },
            SpecParsed::Incomplete(k) => SpecParsed::Incomplete((p1 - pos) + k),
            SpecParsed::Fail(e) => SpecParsed::Fail(e),
        },
        SpecParsed::Incomplete(k) => SpecParsed::Incomplete(k),
        SpecParsed::Fail(e) => SpecParsed::Fail(e),
    }
}

pub fn o_ms_message(input: &Vec<u8>, pos: usize) -> (r: Parsed<OMsMessage>)
    requires
        wire_pos(input@, pos as int),
    ensures
        r@ == spec_o_ms_message(input@, pos as int),
        parse_bounds(r@, input@.len() as int, pos as int),
        r@ matches SpecParsed::Done(n, _) ==> n >= pos + 12,
{
    match be_i64(input, pos) {
        Parsed::Done(p1, offset) => match be_i32(input, p1) {
            Parsed::Done(p2, msize) => match message(input, p2, msize) {
                Parsed::Done(n, m) => Parsed::Done(n, OMsMessage { offset, message: m }),
                Parsed::Incomplete(k) => Parsed::Incomplete((p2 - pos) + k),
                Parsed::Fail(e) => Parsed::Fail(e),
            },
            Parsed::Incomplete(k) => Parsed::Incomplete((p1 - pos) + k),
            Parsed::Fail(e) => Parsed::Fail(e),
        },
        Parsed::Incomplete(k) => Parsed::Incomplete(k),
        Parsed::Fail(e) => Parsed::Fail(e),
    }
}

/// Entries back to back until the window is exhausted; each entry must fit
/// whole, and an entry that does not reports how much it needed.
pub open spec fn spec_ms_messages(w: Seq<u8>, pos: int) -> SpecParsed<Seq<OMsMessageV>>
    decreases w.len() - pos,
{
    if pos >= w.len() {
        SpecParsed::Done(pos, Seq::<OMsMessageV>::empty())
    } else {
        match spec_o_ms_message(w, pos) {
            SpecParsed::Done(n, m) => if pos < n <= w.len() {
                match spec_ms_messages(w, n) {
                    SpecParsed::Done(n2, rest) => SpecParsed::Done(n2, seq![m] + rest),
                    SpecParsed::Incomplete(k) => SpecParsed::Incomplete((n - pos) + k),
                    SpecParsed::Fail(e) => SpecParsed::Fail(e),
                }
            } else {
                SpecParsed::Fail(InputError::ParserError)
            },
            SpecParsed::Incomplete(k) => SpecParsed::Incomplete(k),
            SpecParsed::Fail(e) => SpecParsed::Fail(e),
        }
    }
}

fn ms_messages(w: &Vec<u8>) -> (r: Parsed<MessageSet>)
    requires
        w@.len() <= MAX_WIRE,
    ensures
        r@ == spec_ms_messages(w@, 0),
        parse_bounds(r@, w@.len() as int, 0),
{
    broadcast use lemma_vec_deep_view;

    let mut acc: Vec<OMsMessage> = Vec::new();
    let mut cur: usize = 0;
    proof {
        assert(acc.deep_view() =~= Seq::<OMsMessageV>::empty());
        lemma_combine_empty(spec_ms_messages(w@, 0));
    }
    while cur < w.len()
        invariant
            cur <= w@.len() <= MAX_WIRE,
            spec_ms_messages(w@, 0) == elems_combine(
                cur as int,
                acc.deep_view(),
                spec_ms_messages(w@, cur as int),
            ),
        decreases w@.len() - cur,
    {
        match o_ms_message(w, cur) {
            Parsed::Done(n, m) => {
                proof {
                    lemma_ms_step(w@, 0, acc.deep_view(), cur as int, n as int, m.deep_view());
                    lemma_seq_deep_push(acc@, m);
                }
                acc.push(m);
                cur = n;
            },
            Parsed::Incomplete(k) => {
                return Parsed::Incomplete(cur + k);
            },
            Parsed::Fail(e) => {
                return Parsed::Fail(e);
            },
        }
    }
    Parsed::Done(cur, acc)
}

proof fn lemma_ms_step(w: Seq<u8>, p0: int, acc: Seq<OMsMessageV>, cur: int, nn: int, vv: OMsMessageV)
    requires
        0 <= cur < w.len(),
        spec_o_ms_message(w, cur) == SpecParsed::Done(nn, vv),
        cur < nn <= w.len(),
    ensures
        elems_combine(cur - p0, acc, spec_ms_messages(w, cur)) == elems_combine(
            nn - p0,
            acc.push(vv),
            spec_ms_messages(w, nn),
        ),
{
    match spec_ms_messages(w, nn) {
        SpecParsed::Done(p2, r2) => {
            assert(acc + (seq![vv] + r2) =~= acc.push(vv) + r2);
        },
        SpecParsed::Incomplete(k) => {},
        SpecParsed::Fail(e) => {},
    }
}

/// A message-set of declared length `size` at `pos`: exactly `size` bytes are
/// sliced (a negative size is `InvalidMessageSetSize`) and decoded as entries
/// back to back; trailing bytes beyond the declared length are left for the
/// caller.
pub open spec fn spec_message_set(s: Seq<u8>, pos: int, size: i32) -> SpecParsed<
    Seq<OMsMessageV>,
> {
    if size < 0 {
        SpecParsed::Fail(InputError::InvalidMessageSetSize)
    } else if s.len() - pos < size {
        SpecParsed::Incomplete(size as int)
    } else {
        match spec_ms_messages(s.subrange(pos, pos + size), 0) {
            SpecParsed::Done(_, ms) => SpecParsed::Done(pos + size, ms),
            SpecParsed::Incomplete(k) => SpecParsed::Incomplete(k),
            SpecParsed::Fail(e) => SpecParsed::Fail(e),
        }
    }
}

pub fn message_set(input: &Vec<u8>, pos: usize, size: i32) -> (r: Parsed<MessageSet>)
    requires
        wire_pos(input@, pos as int),
    ensures
        r@ == spec_message_set(input@, pos as int, size),
        parse_bounds(r@, input@.len() as int, pos as int),
{
    if size < 0 {
        return Parsed::Fail(InputError::InvalidMessageSetSize);
    }
    let sz = size as usize;
    if input.len() - pos < sz {
        return Parsed::Incomplete(sz);
    }
    let w = subvec(input, pos, pos + sz);
    match ms_messages(&w) {
        Parsed::Done(_, ms) => Parsed::Done(pos + sz, ms),
        Parsed::Incomplete(k) => Parsed::Incomplete(k),
        Parsed::Fail(e) => Parsed::Fail(e),
    }
}

/// The message-set grammar of one partition: partition id, declared size,
/// message-set.
pub open spec fn spec_partition_message_set(s: Seq<u8>, pos: int) -> SpecParsed<
    PartitionMessageSetV,
> {
    match spec_be_i32(s, pos) {
        SpecParsed::Done(p1, partition) => match spec_be_i32(s, p1) {
            SpecParsed::Done(p2, msize) => match spec_message_set(s, p2, msize) {
                SpecParsed::Done(n, ms) => SpecParsed::Done(
                    n,
                    PartitionMessageSetV { partition: partition, message_set: ms },
                ),
                SpecParsed::Incomplete(k) => SpecParsed::Incomplete((p2 - pos) + k),
                SpecParsed::Fail(e) => SpecParsed::Fail(e),
            },
            SpecParsed::Incomplete(k) => SpecParsed::Incomplete((p1 - pos) + k),
            SpecParsed::Fail(e) => SpecParsed::Fail(e),
        },
        SpecParsed::Incomplete(k) => SpecParsed::Incomplete(k),
        SpecParsed::Fail(e) => SpecParsed::Fail(e),
    }
}

pub fn partition_message_set(input: &Vec<u8>, pos: usize) -> (r: Parsed<PartitionMessageSet>)
    requires
        wire_pos(input@, pos as int),
    ensures
        r@ == spec_partition_message_set(input@, pos as int),
        parse_bounds(r@, input@.len() as int, pos as int),
{
    match be_i32(input, pos) {
        Parsed::Done(p1, partition) => match be_i32(input, p1) {
            Parsed::Done(p2, msize) => match message_set(input, p2, msize) {
                Parsed::Done(n, ms) => Parsed::Done(
                    n,
                    PartitionMessageSet { partition, message_set: ms },
                ),
                Parsed::Incomplete(k) => Parsed::Incomplete((p2 - pos) + k),
                Parsed::Fail(e) => Parsed::Fail(e),
            },
            Parsed::Incomplete(k) => Parsed::Incomplete((p1 - pos) + k),
            Parsed::Fail(e) => Parsed::Fail(e),
        },
        Parsed::Incomplete(k) => Parsed::Incomplete(k),
        Parsed::Fail(e) => Parsed::Fail(e),
    }
}

/// The partition-message-set grammar as a value, for array decoding.
pub open spec fn pms_elem() -> spec_fn(Seq<u8>, int) -> SpecParsed<PartitionMessageSetV> {
    |ss: Seq<u8>, pp: int| spec_partition_message_set(ss, pp)
}

/// The message-set grammar of one topic: topic name, then the partition
/// array.
pub open spec fn spec_topic_message_set(s: Seq<u8>, pos: int) -> SpecParsed<TopicMessageSetV> {
    match spec_kafka_string(s, pos) {
        SpecParsed::Done(p1, name) => match spec_kafka_array(s, p1, pms_elem()) {
            SpecParsed::Done(n, parts) => SpecParsed::Done(
                n,
                TopicMessageSetV { topic_name: name, partitions: parts },
            ),
            SpecParsed::Incomplete(k) => SpecParsed::Incomplete((p1 - pos) + k),
            SpecParsed::Fail(e) => SpecParsed::Fail(e),
        },
        SpecParsed::Incomplete(k) => SpecParsed::Incomplete(k),
        SpecParsed::Fail(e) => SpecParsed::Fail(e),
    }
}

pub fn topic_message_set(input: &Vec<u8>, pos: usize) -> (r: Parsed<TopicMessageSet>)
    requires
        wire_pos(input@, pos as int),
    ensures
        r@ == spec_topic_message_set(input@, pos as int),
        parse_bounds(r@, input@.len() as int, pos as int),
{
    broadcast use lemma_vec_u8_deep_view;

    match kafka_string(input, pos) {
        Parsed::Done(p1, topic_name) => match kafka_array(
            input,
            p1,
            &partition_message_set,
            Ghost(pms_elem()),
        ) {
            Parsed::Done(n, partitions) => Parsed::Done(
                n,
                TopicMessageSet { topic_name, partitions },
            ),
            Parsed::Incomplete(k) => Parsed::Incomplete((p1 - pos) + k),
            Parsed::Fail(e) => Parsed::Fail(e),
        },
        Parsed::Incomplete(k) => Parsed::Incomplete(k),
        Parsed::Fail(e) => Parsed::Fail(e),
    }
}

/// The CRC gate, rejecting side: a message window whose stored CRC differs
/// from the checksum of everything after it decodes to `InvalidMessage`,
/// whatever else the window holds.
pub proof fn lemma_crc_mismatch(w: Seq<u8>)
    requires
        w.len() >= 4,
        i32_to_u32(be_i32_at(w, 0)) != crc32_of(w.subrange(4, w.len() as int)),
    ensures
        spec_message_body(w) == SpecParsed::<MessageV>::Fail(InputError::InvalidMessage),
{
}

/// The CRC gate, accepting side: a message that decodes at all carries a
/// stored CRC equal to the checksum of the bytes from the magic byte to the
/// end of the value, and leaving the window unchanged keeps it decoding to
/// the same message.
pub proof fn lemma_crc_match(w: Seq<u8>)
    requires
        spec_message_body(w) is Done,
    ensures
        w.len() >= 4 && i32_to_u32(be_i32_at(w, 0)) == crc32_of(w.subrange(4, w.len() as int)),
        spec_message_body(w) matches SpecParsed::Done(_, m) ==> m.crc == be_i32_at(w, 0),
{
}

} // verus!
