//! The fetch response serializer: topics, each with partitions carrying an
//! error code, a highwater mark, and a size-prefixed message-set. Each
//! message and each message-set is encoded first, so the size written in
//! front of it is the size of what was actually encoded, never an estimate.

use vstd::prelude::*;

use crate::parser::message::{Message, MessageSet, MessageV, OMsMessageV};
use crate::parser::primitive::{lemma_vec_deep_view, lemma_vec_u8_deep_view, seq_deep, MAX_WIRE};
use crate::responses::primitive::{
    extend_bytes, lemma_ser_elems_snoc, lemma_ser_elems_whole, ser_i16, ser_i32, ser_i64,
    ser_i8, ser_kafka_bytes, ser_kafka_string, spec_ser_elems, spec_ser_i16, spec_ser_i32,
    spec_ser_i64, spec_ser_i8, spec_ser_kafka_array, spec_ser_kafka_bytes, spec_ser_kafka_string,
};

verus! {

/// Per topic: its name and the `(partition, error code, highwater mark,
/// message-set)` rows.
pub type FetchResponse = Vec<(Vec<u8>, Vec<(i32, i16, i64, MessageSet)>)>;

/// The bytes of one encoded message: stored CRC, magic byte, attributes, key,
/// value.
pub open spec fn spec_ser_message(m: MessageV) -> Seq<u8> {
    spec_ser_i32(m.crc) + spec_ser_i8(m.magic_byte) + spec_ser_i8(m.attributes)
        + spec_ser_kafka_bytes(m.key) + spec_ser_kafka_bytes(m.value)
}

/// What the message encoder asks: key, value and the fixed fields must fit
/// one four-byte size.
pub open spec fn message_wf(m: MessageV) -> bool {
    m.key.len() + m.value.len() + 14 <= MAX_WIRE
}

/// One encoded message-set entry: the offset, the encoded message's size,
/// then the encoded message.
pub open spec fn oms_selem() -> spec_fn(OMsMessageV) -> Seq<u8> {
    |m: OMsMessageV|
        spec_ser_i64(m.offset) + spec_ser_i32(spec_ser_message(m.message).len() as i32)
            + spec_ser_message(m.message)
}

/// The bytes of a whole encoded message-set.
pub open spec fn spec_ser_message_set(ms: Seq<OMsMessageV>) -> Seq<u8> {
    spec_ser_kafka_array(ms, oms_selem())
}

pub open spec fn message_set_wf(ms: Seq<OMsMessageV>) -> bool {
    &&& ms.len() <= MAX_WIRE
    &&& forall|j: int| 0 <= j < ms.len() ==> message_wf((#[trigger] ms[j]).message)
}

/// Serializes one message onto `output`.
pub fn ser_message(m: &Message, output: &mut Vec<u8>)
    requires
        message_wf(m.deep_view()),
    ensures
        final(output)@ == old(output)@ + spec_ser_message(m.deep_view()),
{
    ser_i32(m.crc, output);
    ser_i8(m.magic_byte, output);
    ser_i8(m.attributes, output);
    ser_kafka_bytes(&m.key, output);
    ser_kafka_bytes(&m.value, output);
    proof {
        assert(output@ =~= old(output)@ + spec_ser_message(m.deep_view()));
    }
}

/// Serializes a whole message-set onto `output`.
pub fn ser_message_set(ms: &MessageSet, output: &mut Vec<u8>)
    requires
        message_set_wf(ms.deep_view()),
    ensures
        final(output)@ == old(output)@ + spec_ser_message_set(ms.deep_view()),
{
    broadcast use lemma_vec_deep_view, lemma_vec_u8_deep_view;

    let ghost f = oms_selem();
    let ghost mv = ms.deep_view();
    ser_i32(ms.len() as i32, output);
    let mut idx: usize = 0;
    while idx < ms.len()
        invariant
            f == oms_selem(),
            mv == ms.deep_view(),
            mv == seq_deep(ms@),
            idx <= ms@.len() == mv.len() <= MAX_WIRE,
            forall|j: int| 0 <= j < mv.len() ==> message_wf((#[trigger] mv[j]).message),
            output@ == old(output)@ + spec_ser_i32(mv.len() as i32) + spec_ser_elems(
                mv.take(idx as int),
                f,
            ),
        decreases ms@.len() - idx,
    {
        let entry = &ms[idx];
        proof {
            assert(mv[idx as int] == ms@[idx as int].deep_view());
        }
        let mut m_output: Vec<u8> = Vec::new();
        ser_message(&entry.message, &mut m_output);
        ser_i64(entry.offset, output);
        ser_i32(m_output.len() as i32, output);
        extend_bytes(&m_output, output);
        proof {
            lemma_ser_elems_snoc(mv, idx as int, f);
            assert(f(mv[idx as int]) == spec_ser_i64(entry.offset) + spec_ser_i32(
                spec_ser_message(entry.message.deep_view()).len() as i32,
            ) + spec_ser_message(entry.message.deep_view()));
            assert(output@ =~= old(output)@ + spec_ser_i32(mv.len() as i32) + spec_ser_elems(
                mv.take(idx + 1),
                f,
            ));
        }
        idx = idx + 1;
    }
    proof {
        lemma_ser_elems_whole(mv, f);
    }
}

/// One encoded fetch partition row: partition, error code, highwater mark,
/// the encoded message-set's size, then the encoded message-set.
pub open spec fn fetch_part_selem() -> spec_fn((i32, i16, i64, Seq<OMsMessageV>)) -> Seq<u8> {
    |p: (i32, i16, i64, Seq<OMsMessageV>)|
        spec_ser_i32(p.0) + spec_ser_i16(p.1) + spec_ser_i64(p.2) + spec_ser_i32(
            spec_ser_message_set(p.3).len() as i32,
        ) + spec_ser_message_set(p.3)
}

/// One encoded fetch topic: name, then the partition array.
pub open spec fn fetch_topic_selem() -> spec_fn((Seq<u8>, Seq<(i32, i16, i64, Seq<OMsMessageV>)>))
    -> Seq<u8> {
    |t: (Seq<u8>, Seq<(i32, i16, i64, Seq<OMsMessageV>)>)|
        spec_ser_kafka_string(t.0) + spec_ser_kafka_array(t.1, fetch_part_selem())
}

/// The bytes of a whole encoded fetch response.
pub open spec fn spec_ser_fetch_response(
    r: Seq<(Seq<u8>, Seq<(i32, i16, i64, Seq<OMsMessageV>)>)>,
) -> Seq<u8> {
    spec_ser_kafka_array(r, fetch_topic_selem())
}

/// What the encoder asks of one partition row: a message-set whose encoding
/// fits one four-byte size.
pub open spec fn fetch_part_wf(p: (i32, i16, i64, Seq<OMsMessageV>)) -> bool {
    &&& message_set_wf(p.3)
    &&& spec_ser_message_set(p.3).len() <= MAX_WIRE
}

/// What the encoder asks of one topic.
pub open spec fn fetch_topic_wf(t: (Seq<u8>, Seq<(i32, i16, i64, Seq<OMsMessageV>)>)) -> bool {
    &&& t.0.len() <= 0x7fff
    &&& t.1.len() <= MAX_WIRE
    &&& forall|j: int| 0 <= j < t.1.len() ==> fetch_part_wf(#[trigger] t.1[j])
}

fn ser_fetch_partitions(parts: &Vec<(i32, i16, i64, MessageSet)>, output: &mut Vec<u8>)
    requires
        parts.deep_view().len() <= MAX_WIRE,
        forall|j: int|
            0 <= j < parts.deep_view().len() ==> fetch_part_wf(#[trigger] parts.deep_view()[j]),
    ensures
        final(output)@ == old(output)@ + spec_ser_kafka_array(
            parts.deep_view(),
            fetch_part_selem(),
        ),
{
    broadcast use lemma_vec_deep_view, lemma_vec_u8_deep_view;

    let ghost f = fetch_part_selem();
    let ghost pv = parts.deep_view();
    ser_i32(parts.len() as i32, output);
    let mut idx: usize = 0;
    while idx < parts.len()
        invariant
            f == fetch_part_selem(),
            pv == parts.deep_view(),
            pv == seq_deep(parts@),
            idx <= parts@.len() == pv.len() <= MAX_WIRE,
            forall|j: int| 0 <= j < pv.len() ==> fetch_part_wf(#[trigger] pv[j]),
            output@ == old(output)@ + spec_ser_i32(pv.len() as i32) + spec_ser_elems(
                pv.take(idx as int),
                f,
            ),
        decreases parts@.len() - idx,
    {
        let p = &parts[idx];
        proof {
            assert(pv[idx as int] == parts@[idx as int].deep_view());
            assert(pv[idx as int].3 == p.3.deep_view());
        }
        let mut ms_output: Vec<u8> = Vec::new();
        ser_message_set(&p.3, &mut ms_output);
        ser_i32(p.0, output);
        ser_i16(p.1, output);
        ser_i64(p.2, output);
        ser_i32(ms_output.len() as i32, output);
        extend_bytes(&ms_output, output);
        proof {
            lemma_ser_elems_snoc(pv, idx as int, f);
            assert(f(pv[idx as int]) == spec_ser_i32(p.0) + spec_ser_i16(p.1) + spec_ser_i64(p.2)
                + spec_ser_i32(spec_ser_message_set(p.3.deep_view()).len() as i32)
                + spec_ser_message_set(p.3.deep_view()));
            assert(output@ =~= old(output)@ + spec_ser_i32(pv.len() as i32) + spec_ser_elems(
                pv.take(idx + 1),
                f,
            ));
        }
        idx = idx + 1;
    }
    proof {
        lemma_ser_elems_whole(pv, f);
    }
}

/// Serializes a whole fetch response onto `output`.
pub fn ser_fetch_response(r: &FetchResponse, output: &mut Vec<u8>)
    requires
        r.deep_view().len() <= MAX_WIRE,
        forall|i: int|
            0 <= i < r.deep_view().len() ==> fetch_topic_wf(#[trigger] r.deep_view()[i]),
    ensures
        final(output)@ == old(output)@ + spec_ser_fetch_response(r.deep_view()),
{
    broadcast use lemma_vec_deep_view, lemma_vec_u8_deep_view;

    let ghost f = fetch_topic_selem();
    let ghost rv = r.deep_view();
    ser_i32(r.len() as i32, output);
    let mut idx: usize = 0;
    while idx < r.len()
        invariant
            f == fetch_topic_selem(),
            rv == r.deep_view(),
            rv == seq_deep(r@),
            idx <= r@.len() == rv.len() <= MAX_WIRE,
            forall|i: int| 0 <= i < rv.len() ==> fetch_topic_wf(#[trigger] rv[i]),
            output@ == old(output)@ + spec_ser_i32(rv.len() as i32) + spec_ser_elems(
                rv.take(idx as int),
                f,
            ),
        decreases r@.len() - idx,
    {
        let t = &r[idx];
        proof {
            assert(rv[idx as int] == r@[idx as int].deep_view());
            assert(rv[idx as int].0 == t.0@ && rv[idx as int].1 == t.1.deep_view());
        }
        ser_kafka_string(&t.0, output);
        ser_fetch_partitions(&t.1, output);
        proof {
            lemma_ser_elems_snoc(rv, idx as int, f);
            assert(f(rv[idx as int]) == spec_ser_kafka_string(rv[idx as int].0)
                + spec_ser_kafka_array(rv[idx as int].1, fetch_part_selem()));
            assert(output@ =~= old(output)@ + spec_ser_i32(rv.len() as i32) + spec_ser_elems(
                rv.take(idx + 1),
                f,
            ));
        }
        idx = idx + 1;
    }
    proof {
        lemma_ser_elems_whole(rv, f);
    }
}

/// Decoding inverts encoding, message by message: an encoded message whose
/// stored CRC matches the checksum of its encoded body decodes back to
/// exactly the message it came from. (With any other stored CRC the decode
/// fails: the checksum gate admits one stored value per body.)
pub proof fn lemma_message_roundtrip(m: MessageV)
    requires
        message_wf(m),
        crate::num::i32_to_u32(m.crc) == crate::parser::message::crc32_of(
            spec_ser_message(m).subrange(4, spec_ser_message(m).len() as int),
        ),
    ensures
        crate::parser::message::spec_message_body(spec_ser_message(m))
            == crate::parser::primitive::SpecParsed::Done(spec_ser_message(m).len() as int, m),
{
    let w = spec_ser_message(m);
    let klen = m.key.len() as int;
    let vlen = m.value.len() as int;
    let crc_b = spec_ser_i32(m.crc);
    let magic_b = spec_ser_i8(m.magic_byte);
    let attr_b = spec_ser_i8(m.attributes);
    let khdr = spec_ser_i32(klen as i32);
    let vhdr = spec_ser_i32(vlen as i32);
    assert(w =~= crc_b + magic_b + attr_b + (khdr + m.key) + (vhdr + m.value));
    assert(w.len() == 14 + klen + vlen);

    // The stored CRC reads back as itself.
    crate::num::lemma_be_u32_roundtrip(crate::num::i32_to_u32(m.crc));
    assert(w[0] == crc_b[0] && w[1] == crc_b[1] && w[2] == crc_b[2] && w[3] == crc_b[3]);
    assert(crate::num::be_u32_at(w, 0) == crate::num::i32_to_u32(m.crc));
    crate::num::lemma_i32_u32_roundtrip(m.crc);
    assert(crate::num::be_i32_at(w, 0) == m.crc);

    // The magic byte and attributes read back as themselves.
    assert(w[4] == crate::num::i8_to_u8(m.magic_byte));
    assert(w[5] == crate::num::i8_to_u8(m.attributes));
    crate::num::lemma_i8_u8_roundtrip(m.magic_byte);
    crate::num::lemma_i8_u8_roundtrip(m.attributes);

    // The key field reads back as the key.
    let ku = crate::num::i32_to_u32(klen as i32);
    assert(ku == klen);
    crate::num::lemma_be_u32_roundtrip(ku);
    assert(w[6] == crate::num::be_u32_bytes(ku)[0] && w[7] == crate::num::be_u32_bytes(ku)[1]
        && w[8] == crate::num::be_u32_bytes(ku)[2] && w[9] == crate::num::be_u32_bytes(ku)[3]);
    assert(crate::num::be_u32_at(w, 6) == ku);
    crate::num::lemma_i32_u32_roundtrip(klen as i32);
    assert(crate::num::be_i32_at(w, 6) == klen as i32);
    assert(w.subrange(10, 10 + klen) =~= m.key);
    assert(crate::parser::primitive::spec_kafka_bytes(w, 6)
        == crate::parser::primitive::SpecParsed::Done(10 + klen, m.key));

    // The value field reads back as the value and ends the window exactly.
    let kp = 10 + klen;
    let vu = crate::num::i32_to_u32(vlen as i32);
    assert(vu == vlen && vu < 0x8000_0000);
    crate::num::lemma_be_u32_roundtrip(vu);
    assert(w[kp] == crate::num::be_u32_bytes(vu)[0] && w[kp + 1] == crate::num::be_u32_bytes(
        vu,
    )[1] && w[kp + 2] == crate::num::be_u32_bytes(vu)[2] && w[kp + 3] == crate::num::be_u32_bytes(
        vu,
    )[3]);
    assert(crate::num::be_u32_at(w, kp) == vu);
    crate::num::lemma_i32_u32_roundtrip(vlen as i32);
    assert(crate::num::be_i32_at(w, kp) == vlen as i32);
    assert(w.subrange(kp + 4, kp + 4 + vlen) =~= m.value);
    assert(crate::parser::primitive::spec_kafka_bytes(w, kp)
        == crate::parser::primitive::SpecParsed::Done(w.len() as int, m.value));

    assert(crate::parser::message::spec_message_after_key(w, kp, m.key)
        matches crate::parser::primitive::SpecParsed::Done(n, out) ==> n == w.len() && out =~~= m);
}

} // verus!
