//! Primitive encoders: fixed-width big-endian integers, length-prefixed bytes
//! and strings, and the shared machinery for length-prefixed arrays. Every
//! encoder appends to the end of its output buffer; its contract names the
//! exact bytes appended.

use vstd::prelude::*;

use crate::num::{
    be_u16_bytes, be_u32_bytes, be_u64_bytes, i16_to_u16, i32_to_u32, i64_to_u64, i8_to_u8,
    lemma_mask_ff_u16, lemma_mask_ff_u32, lemma_mask_ff_u64,
};
use crate::num::{i16_as_u16, i32_as_u32, i64_as_u64, i8_as_u8};
use crate::parser::primitive::MAX_WIRE;

verus! {

/// The one byte of an encoded `i8`.
pub open spec fn spec_ser_i8(v: i8) -> Seq<u8> {
    seq![i8_to_u8(v)]
}

/// The two big-endian bytes of an encoded `i16`.
pub open spec fn spec_ser_i16(v: i16) -> Seq<u8> {
    be_u16_bytes(i16_to_u16(v))
}

/// The four big-endian bytes of an encoded `i32`.
pub open spec fn spec_ser_i32(v: i32) -> Seq<u8> {
    be_u32_bytes(i32_to_u32(v))
}

/// The eight big-endian bytes of an encoded `i64`.
pub open spec fn spec_ser_i64(v: i64) -> Seq<u8> {
    be_u64_bytes(i64_to_u64(v))
}

pub fn ser_i8(v: i8, output: &mut Vec<u8>)
    ensures
        final(output)@ == old(output)@ + spec_ser_i8(v),
{
    output.push(i8_as_u8(v));
    proof {
        assert(output@ =~= old(output)@ + spec_ser_i8(v));
    }
}

pub fn ser_i16(v: i16, output: &mut Vec<u8>)
    ensures
        final(output)@ == old(output)@ + spec_ser_i16(v),
{
    let bits: u16 = i16_as_u16(v);
    proof {
        lemma_mask_ff_u16(bits >> 8);
        lemma_mask_ff_u16(bits);
    }
    output.push(((bits >> 8) & 0xff) as u8);
    output.push((bits & 0xff) as u8);
    proof {
        assert(output@ =~= old(output)@ + spec_ser_i16(v));
    }
}

pub fn ser_i32(v: i32, output: &mut Vec<u8>)
    ensures
        final(output)@ == old(output)@ + spec_ser_i32(v),
{
    let bits: u32 = i32_as_u32(v);
    proof {
        lemma_mask_ff_u32(bits >> 24);
        lemma_mask_ff_u32(bits >> 16);
        lemma_mask_ff_u32(bits >> 8);
        lemma_mask_ff_u32(bits);
    }
    output.push(((bits >> 24) & 0xff) as u8);
    output.push(((bits >> 16) & 0xff) as u8);
    output.push(((bits >> 8) & 0xff) as u8);
    output.push((bits & 0xff) as u8);
    proof {
        assert(output@ =~= old(output)@ + spec_ser_i32(v));
    }
}

pub fn ser_i32_ref(v: &i32, output: &mut Vec<u8>)
    ensures
        final(output)@ == old(output)@ + spec_ser_i32(*v),
{
    ser_i32(*v, output);
}

pub fn ser_i64(v: i64, output: &mut Vec<u8>)
    ensures
        final(output)@ == old(output)@ + spec_ser_i64(v),
{
    let bits: u64 = i64_as_u64(v);
    proof {
        lemma_mask_ff_u64(bits >> 56);
        lemma_mask_ff_u64(bits >> 48);
        lemma_mask_ff_u64(bits >> 40);
        lemma_mask_ff_u64(bits >> 32);
        lemma_mask_ff_u64(bits >> 24);
        lemma_mask_ff_u64(bits >> 16);
        lemma_mask_ff_u64(bits >> 8);
        lemma_mask_ff_u64(bits);
    }
    output.push(((bits >> 56) & 0xff) as u8);
    output.push(((bits >> 48) & 0xff) as u8);
    output.push(((bits >> 40) & 0xff) as u8);
    output.push(((bits >> 32) & 0xff) as u8);
    output.push(((bits >> 24) & 0xff) as u8);
    output.push(((bits >> 16) & 0xff) as u8);
    output.push(((bits >> 8) & 0xff) as u8);
    output.push((bits & 0xff) as u8);
    proof {
        assert(output@ =~= old(output)@ + spec_ser_i64(v));
    }
}

pub fn ser_i64_ref(v: &i64, output: &mut Vec<u8>)
    ensures
        final(output)@ == old(output)@ + spec_ser_i64(*v),
{
    ser_i64(*v, output);
}

/// Appends every byte of `b` to `output`.
pub fn extend_bytes(b: &Vec<u8>, output: &mut Vec<u8>)
    ensures
        final(output)@ == old(output)@ + b@,
{
    let mut i: usize = 0;
    while i < b.len()
        invariant
            i <= b@.len(),
            output@ == old(output)@ + b@.take(i as int),
        decreases b@.len() - i,
    {
        output.push(b[i]);
        proof {
            assert((old(output)@ + b@.take(i as int)).push(b@[i as int]) =~= old(output)@
                + b@.take(i + 1));
        }
        i = i + 1;
    }
    proof {
        assert(b@.take(b@.len() as int) =~= b@);
    }
}

/// Length-prefixed bytes: a four-byte count, then the bytes.
pub open spec fn spec_ser_kafka_bytes(b: Seq<u8>) -> Seq<u8>
    recommends
        b.len() <= MAX_WIRE,
{
    spec_ser_i32(b.len() as i32) + b
}

pub fn ser_kafka_bytes(b: &Vec<u8>, output: &mut Vec<u8>)
    requires
        b@.len() <= MAX_WIRE,
    ensures
        final(output)@ == old(output)@ + spec_ser_kafka_bytes(b@),
{
    ser_i32(b.len() as i32, output);
    extend_bytes(b, output);
    proof {
        assert(output@ =~= old(output)@ + spec_ser_kafka_bytes(b@));
    }
}

/// A length-prefixed string: a two-byte count, then the bytes.
pub open spec fn spec_ser_kafka_string(s: Seq<u8>) -> Seq<u8>
    recommends
        s.len() <= 0x7fff,
{
    spec_ser_i16(s.len() as i16) + s
}

pub fn ser_kafka_string(s: &Vec<u8>, output: &mut Vec<u8>)
    requires
        s@.len() <= 0x7fff,
    ensures
        final(output)@ == old(output)@ + spec_ser_kafka_string(s@),
{
    ser_i16(s.len() as i16, output);
    extend_bytes(s, output);
    proof {
        assert(output@ =~= old(output)@ + spec_ser_kafka_string(s@));
    }
}

/// The encoded elements of a run, back to back.
pub open spec fn spec_ser_elems<T>(elems: Seq<T>, f: spec_fn(T) -> Seq<u8>) -> Seq<u8>
    decreases elems.len(),
{
    if elems.len() == 0 {
        Seq::<u8>::empty()
    } else {
        f(elems[0]) + spec_ser_elems(elems.drop_first(), f)
    }
}

/// A length-prefixed array: a four-byte count, then the encoded elements.
pub open spec fn spec_ser_kafka_array<T>(elems: Seq<T>, f: spec_fn(T) -> Seq<u8>) -> Seq<u8>
    recommends
        elems.len() <= MAX_WIRE,
{
    spec_ser_i32(elems.len() as i32) + spec_ser_elems(elems, f)
}

/// Encoding one more element extends the encoded run by that element's bytes:
/// the loop invariant step for every array encoder.
pub proof fn lemma_ser_elems_snoc<T>(elems: Seq<T>, i: int, f: spec_fn(T) -> Seq<u8>)
    requires
        0 <= i < elems.len(),
    ensures
        spec_ser_elems(elems.take(i + 1), f) == spec_ser_elems(elems.take(i), f) + f(elems[i]),
    decreases i,
{
    if i == 0 {
        let t1 = elems.take(1);
        assert(t1.len() == 1 && t1[0] == elems[0]);
        assert(t1.drop_first() =~= Seq::<T>::empty());
        assert(spec_ser_elems(t1, f) == f(t1[0]) + spec_ser_elems(t1.drop_first(), f));
        assert(elems.take(0) =~= Seq::<T>::empty());
        assert(f(elems[0]) + Seq::<u8>::empty() =~= f(elems[0]));
        assert(Seq::<u8>::empty() + f(elems[0]) =~= f(elems[0]));
    } else {
        lemma_ser_elems_snoc(elems.drop_first(), i - 1, f);
        assert(elems.take(i + 1).drop_first() =~= elems.drop_first().take(i));
        assert(elems.take(i).drop_first() =~= elems.drop_first().take(i - 1));
        assert(elems.take(i + 1)[0] == elems[0]);
        assert(elems.take(i)[0] == elems[0]);
        assert(elems.drop_first()[i - 1] == elems[i]);
        assert(f(elems[0]) + (spec_ser_elems(elems.drop_first().take(i - 1), f) + f(elems[i]))
            =~= (f(elems[0]) + spec_ser_elems(elems.drop_first().take(i - 1), f)) + f(elems[i]));
    }
}

/// A whole run is its take-everything prefix: the exit step for every array
/// encoder.
pub proof fn lemma_ser_elems_whole<T>(elems: Seq<T>, f: spec_fn(T) -> Seq<u8>)
    ensures
        spec_ser_elems(elems.take(elems.len() as int), f) == spec_ser_elems(elems, f),
{
    assert(elems.take(elems.len() as int) =~= elems);
}

/// One encoded `i32` of an integer array.
pub open spec fn i32_selem() -> spec_fn(i32) -> Seq<u8> {
    |v: i32| spec_ser_i32(v)
}

/// A length-prefixed array of `i32`.
pub fn ser_i32_array(v: &Vec<i32>, output: &mut Vec<u8>)
    requires
        v@.len() <= MAX_WIRE,
    ensures
        final(output)@ == old(output)@ + spec_ser_kafka_array(v@, i32_selem()),
{
    let ghost f = i32_selem();
    ser_i32(v.len() as i32, output);
    let mut idx: usize = 0;
    while idx < v.len()
        invariant
            f == i32_selem(),
            idx <= v@.len() <= MAX_WIRE,
            output@ == old(output)@ + spec_ser_i32(v@.len() as i32) + spec_ser_elems(
                v@.take(idx as int),
                f,
            ),
        decreases v@.len() - idx,
    {
        ser_i32(v[idx], output);
        proof {
            lemma_ser_elems_snoc(v@, idx as int, f);
            assert(output@ =~= old(output)@ + spec_ser_i32(v@.len() as i32) + spec_ser_elems(
                v@.take(idx + 1),
                f,
            ));
        }
        idx = idx + 1;
    }
    proof {
        lemma_ser_elems_whole(v@, f);
    }
}

/// One encoded `i64` of an integer array.
pub open spec fn i64_selem() -> spec_fn(i64) -> Seq<u8> {
    |v: i64| spec_ser_i64(v)
}

/// A length-prefixed array of `i64`.
pub fn ser_i64_array(v: &Vec<i64>, output: &mut Vec<u8>)
    requires
        v@.len() <= MAX_WIRE,
    ensures
        final(output)@ == old(output)@ + spec_ser_kafka_array(v@, i64_selem()),
{
    let ghost f = i64_selem();
    ser_i32(v.len() as i32, output);
    let mut idx: usize = 0;
    while idx < v.len()
        invariant
            f == i64_selem(),
            idx <= v@.len() <= MAX_WIRE,
            output@ == old(output)@ + spec_ser_i32(v@.len() as i32) + spec_ser_elems(
                v@.take(idx as int),
                f,
            ),
        decreases v@.len() - idx,
    {
        ser_i64(v[idx], output);
        proof {
            lemma_ser_elems_snoc(v@, idx as int, f);
            assert(output@ =~= old(output)@ + spec_ser_i32(v@.len() as i32) + spec_ser_elems(
                v@.take(idx + 1),
                f,
            ));
        }
        idx = idx + 1;
    }
    proof {
        lemma_ser_elems_whole(v@, f);
    }
}

} // verus!
