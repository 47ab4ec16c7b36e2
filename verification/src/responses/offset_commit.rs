//! The offset-commit response serializer: topics, each with partitions
//! carrying an error code.

use vstd::prelude::*;

use crate::parser::primitive::{lemma_vec_deep_view, lemma_vec_u8_deep_view, seq_deep, MAX_WIRE};
use crate::responses::primitive::{
    lemma_ser_elems_snoc, lemma_ser_elems_whole, ser_i16, ser_i32, ser_kafka_string,
    spec_ser_elems, spec_ser_i16, spec_ser_i32, spec_ser_kafka_array, spec_ser_kafka_string,
};

verus! {

/// Per topic: its name and the `(partition, error code)` rows.
pub type OffsetCommitResponse = Vec<(Vec<u8>, Vec<(i32, i16)>)>;

/// One encoded offset-commit partition row.
pub open spec fn oc_part_selem() -> spec_fn((i32, i16)) -> Seq<u8> {
    |p: (i32, i16)| spec_ser_i32(p.0) + spec_ser_i16(p.1)
}

/// One encoded offset-commit topic: name, then the partition array.
pub open spec fn oc_topic_selem() -> spec_fn((Seq<u8>, Seq<(i32, i16)>)) -> Seq<u8> {
    |t: (Seq<u8>, Seq<(i32, i16)>)|
        spec_ser_kafka_string(t.0) + spec_ser_kafka_array(t.1, oc_part_selem())
}

/// The bytes of a whole encoded offset-commit response.
pub open spec fn spec_ser_offset_commit_response(r: Seq<(Seq<u8>, Seq<(i32, i16)>)>) -> Seq<u8> {
    spec_ser_kafka_array(r, oc_topic_selem())
}

/// What the encoder asks of one topic.
pub open spec fn oc_topic_wf(t: (Seq<u8>, Seq<(i32, i16)>)) -> bool {
    t.0.len() <= 0x7fff && t.1.len() <= MAX_WIRE
}

fn ser_oc_partitions(parts: &Vec<(i32, i16)>, output: &mut Vec<u8>)
    requires
        parts@.len() <= MAX_WIRE,
    ensures
        final(output)@ == old(output)@ + spec_ser_kafka_array(parts@, oc_part_selem()),
{
    let ghost f = oc_part_selem();
    ser_i32(parts.len() as i32, output);
    let mut idx: usize = 0;
    while idx < parts.len()
        invariant
            f == oc_part_selem(),
            idx <= parts@.len() <= MAX_WIRE,
            output@ == old(output)@ + spec_ser_i32(parts@.len() as i32) + spec_ser_elems(
                parts@.take(idx as int),
                f,
            ),
        decreases parts@.len() - idx,
    {
        let p = parts[idx];
        ser_i32(p.0, output);
        ser_i16(p.1, output);
        proof {
            lemma_ser_elems_snoc(parts@, idx as int, f);
            assert(f(parts@[idx as int]) == spec_ser_i32(p.0) + spec_ser_i16(p.1));
            assert(output@ =~= old(output)@ + spec_ser_i32(parts@.len() as i32) + spec_ser_elems(
                parts@.take(idx + 1),
                f,
            ));
        }
        idx = idx + 1;
    }
    proof {
        lemma_ser_elems_whole(parts@, f);
    }
}

/// Serializes a whole offset-commit response onto `output`.
pub fn ser_offset_commit_response(r: &OffsetCommitResponse, output: &mut Vec<u8>)
    requires
        r.deep_view().len() <= MAX_WIRE,
        forall|i: int| 0 <= i < r.deep_view().len() ==> oc_topic_wf(#[trigger] r.deep_view()[i]),
    ensures
        final(output)@ == old(output)@ + spec_ser_offset_commit_response(r.deep_view()),
{
    broadcast use lemma_vec_deep_view, lemma_vec_u8_deep_view;

    let ghost f = oc_topic_selem();
    let ghost rv = r.deep_view();
    ser_i32(r.len() as i32, output);
    let mut idx: usize = 0;
    while idx < r.len()
        invariant
            f == oc_topic_selem(),
            rv == r.deep_view(),
            rv == seq_deep(r@),
            idx <= r@.len() == rv.len() <= MAX_WIRE,
            forall|i: int| 0 <= i < rv.len() ==> oc_topic_wf(#[trigger] rv[i]),
            output@ == old(output)@ + spec_ser_i32(rv.len() as i32) + spec_ser_elems(
                rv.take(idx as int),
                f,
            ),
        decreases r@.len() - idx,
    {
        let t = &r[idx];
        proof {
            assert(rv[idx as int] == r@[idx as int].deep_view());
            assert(rv[idx as int].0 == t.0@ && rv[idx as int].1 == t.1@);
        }
        ser_kafka_string(&t.0, output);
        ser_oc_partitions(&t.1, output);
        proof {
            lemma_ser_elems_snoc(rv, idx as int, f);
            assert(f(rv[idx as int]) == spec_ser_kafka_string(rv[idx as int].0)
                + spec_ser_kafka_array(rv[idx as int].1, oc_part_selem()));
            assert(output@ =~= old(output)@ + spec_ser_i32(rv.len() as i32) + spec_ser_elems(
                rv.take(idx + 1),
                f,
            ));
        }
        idx = idx + 1;
    }
    proof {
        lemma_ser_elems_whole(rv, f);
    }
}

} // verus!
