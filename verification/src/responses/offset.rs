//! The list-offsets ("offset") response serializer: topics, each with
//! partitions carrying an error code and an offset list.

use vstd::prelude::*;

use crate::parser::primitive::{lemma_vec_deep_view, lemma_vec_u8_deep_view, seq_deep, MAX_WIRE};
use crate::responses::primitive::{
    i64_selem, lemma_ser_elems_snoc, lemma_ser_elems_whole, ser_i16, ser_i32, ser_i64_array,
    ser_kafka_string, spec_ser_elems, spec_ser_i16, spec_ser_i32, spec_ser_kafka_array,
    spec_ser_kafka_string,
};

verus! {

/// Per topic: its name and the `(partition, error code, offsets)` rows.
pub type OffsetResponse = Vec<(Vec<u8>, Vec<(i32, i16, Vec<i64>)>)>;

/// One encoded list-offsets partition row.
pub open spec fn offset_part_selem() -> spec_fn((i32, i16, Seq<i64>)) -> Seq<u8> {
    |p: (i32, i16, Seq<i64>)|
        spec_ser_i32(p.0) + spec_ser_i16(p.1) + spec_ser_kafka_array(p.2, i64_selem())
}

/// One encoded list-offsets topic: name, then the partition array.
pub open spec fn offset_topic_selem() -> spec_fn((Seq<u8>, Seq<(i32, i16, Seq<i64>)>)) -> Seq<
    u8,
> {
    |t: (Seq<u8>, Seq<(i32, i16, Seq<i64>)>)|
        spec_ser_kafka_string(t.0) + spec_ser_kafka_array(t.1, offset_part_selem())
}

/// The bytes of a whole encoded list-offsets response.
pub open spec fn spec_ser_offset_response(r: Seq<(Seq<u8>, Seq<(i32, i16, Seq<i64>)>)>) -> Seq<
    u8,
> {
    spec_ser_kafka_array(r, offset_topic_selem())
}

/// What the encoder asks of one partition row: an offset list a four-byte
/// count can carry.
pub open spec fn offset_part_wf(p: (i32, i16, Seq<i64>)) -> bool {
    p.2.len() <= MAX_WIRE
}

/// What the encoder asks of one topic.
pub open spec fn offset_topic_wf(t: (Seq<u8>, Seq<(i32, i16, Seq<i64>)>)) -> bool {
    &&& t.0.len() <= 0x7fff
    &&& t.1.len() <= MAX_WIRE
    &&& forall|j: int| 0 <= j < t.1.len() ==> offset_part_wf(#[trigger] t.1[j])
}

fn ser_offset_partitions(parts: &Vec<(i32, i16, Vec<i64>)>, output: &mut Vec<u8>)
    requires
        parts.deep_view().len() <= MAX_WIRE,
        forall|j: int|
            0 <= j < parts.deep_view().len() ==> offset_part_wf(#[trigger] parts.deep_view()[j]),
    ensures
        final(output)@ == old(output)@ + spec_ser_kafka_array(
            parts.deep_view(),
            offset_part_selem(),
        ),
{
    broadcast use lemma_vec_deep_view, lemma_vec_u8_deep_view;

    let ghost f = offset_part_selem();
    let ghost pv = parts.deep_view();
    ser_i32(parts.len() as i32, output);
    let mut idx: usize = 0;
    while idx < parts.len()
        invariant
            f == offset_part_selem(),
            pv == parts.deep_view(),
            pv == seq_deep(parts@),
            idx <= parts@.len() == pv.len() <= MAX_WIRE,
            forall|j: int| 0 <= j < pv.len() ==> offset_part_wf(#[trigger] pv[j]),
            output@ == old(output)@ + spec_ser_i32(pv.len() as i32) + spec_ser_elems(
                pv.take(idx as int),
                f,
            ),
        decreases parts@.len() - idx,
    {
        let p = &parts[idx];
        proof {
            assert(pv[idx as int] == parts@[idx as int].deep_view());
            assert(pv[idx as int].2 =~= p.2@);
        }
        ser_i32(p.0, output);
        ser_i16(p.1, output);
        ser_i64_array(&p.2, output);
        proof {
            lemma_ser_elems_snoc(pv, idx as int, f);
            assert(f(pv[idx as int]) == spec_ser_i32(p.0) + spec_ser_i16(p.1)
                + spec_ser_kafka_array(p.2@, i64_selem()));
            assert(output@ =~= old(output)@ + spec_ser_i32(pv.len() as i32) + spec_ser_elems(
                pv.take(idx + 1),
                f,
            ));
        }
        idx = idx + 1;
    }
    proof {
        lemma_ser_elems_whole(pv, f);
    }
}

/// Serializes a whole list-offsets response onto `output`.
pub fn ser_offset_response(r: &OffsetResponse, output: &mut Vec<u8>)
    requires
        r.deep_view().len() <= MAX_WIRE,
        forall|i: int|
            0 <= i < r.deep_view().len() ==> offset_topic_wf(#[trigger] r.deep_view()[i]),
    ensures
        final(output)@ == old(output)@ + spec_ser_offset_response(r.deep_view()),
{
    broadcast use lemma_vec_deep_view, lemma_vec_u8_deep_view;

    let ghost f = offset_topic_selem();
    let ghost rv = r.deep_view();
    ser_i32(r.len() as i32, output);
    let mut idx: usize = 0;
    while idx < r.len()
        invariant
            f == offset_topic_selem(),
            rv == r.deep_view(),
            rv == seq_deep(r@),
            idx <= r@.len() == rv.len() <= MAX_WIRE,
            forall|i: int| 0 <= i < rv.len() ==> offset_topic_wf(#[trigger] rv[i]),
            output@ == old(output)@ + spec_ser_i32(rv.len() as i32) + spec_ser_elems(
                rv.take(idx as int),
                f,
            ),
        decreases r@.len() - idx,
    {
        let t = &r[idx];
        proof {
            assert(rv[idx as int] == r@[idx as int].deep_view());
            assert(rv[idx as int].0 == t.0@ && rv[idx as int].1 == t.1.deep_view());
        }
        ser_kafka_string(&t.0, output);
        ser_offset_partitions(&t.1, output);
        proof {
            lemma_ser_elems_snoc(rv, idx as int, f);
            assert(f(rv[idx as int]) == spec_ser_kafka_string(rv[idx as int].0)
                + spec_ser_kafka_array(rv[idx as int].1, offset_part_selem()));
            assert(output@ =~= old(output)@ + spec_ser_i32(rv.len() as i32) + spec_ser_elems(
                rv.take(idx + 1),
                f,
            ));
        }
        idx = idx + 1;
    }
    proof {
        lemma_ser_elems_whole(rv, f);
    }
}

} // verus!
