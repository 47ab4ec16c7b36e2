//! Primitive decoders: fixed-width big-endian integers, length-prefixed byte
//! strings, length-prefixed UTF-8 strings, and the shared machinery for
//! length-prefixed arrays.
//!
//! Every decoder consumes from position `pos` of a byte buffer and returns
//! either `Done(next, value)` with the position just past what it consumed, an
//! explicit `Incomplete(needed)` when the input ends too early, or a typed
//! `Fail`; no input panics. A `needed` count follows the decoder's internal
//! accounting: a fixed-width field reports its own width, a length-prefixed
//! body reports its declared length, and a decoder that fails `k` bytes into a
//! larger structure adds those `k` consumed bytes on top of what its inner
//! field reported.

use vstd::prelude::*;

use crate::errors::InputError;
use crate::num::{be_i16_at, be_i32_at, be_i64_at, u8_to_i8};
use crate::num::{u16_as_i16, u32_as_i32, u64_as_i64, u8_as_i8};
use crate::utf8::{is_utf8, validate_utf8};

verus! {

/// No declared length, and no buffer handed to the decoder, may exceed what an
/// `i32` length prefix can describe.
pub const MAX_WIRE: usize = 0x7fff_ffff;

/// What one decoder call produced: the position just past the consumed bytes
/// and the value, a need for more input, or a typed failure.
#[derive(Debug, PartialEq)]
pub enum Parsed<T> {
    Done(usize, T),
    Incomplete(usize),
    Fail(InputError),
}

/// The mathematical shadow of `Parsed`, over views of the decoded values.
pub enum SpecParsed<T> {
    Done(int, T),
    Incomplete(int),
    Fail(InputError),
}

impl<T: DeepView> View for Parsed<T> {
    type V = SpecParsed<T::V>;

    open spec fn view(&self) -> SpecParsed<T::V> {
        match self {
            Parsed::Done(n, v) => SpecParsed::Done(*n as int, v.deep_view()),
            Parsed::Incomplete(n) => SpecParsed::Incomplete(*n as int),
            Parsed::Fail(e) => SpecParsed::Fail(*e),
        }
    }
}

impl<T: DeepView> DeepView for Parsed<T> {
    type V = SpecParsed<T::V>;

    open spec fn deep_view(&self) -> SpecParsed<T::V> {
        self.view()
    }
}

/// The deep view of a vector of bytes is its plain view.
pub broadcast proof fn lemma_vec_u8_deep_view(v: Vec<u8>)
    ensures
        #[trigger] v.deep_view() == v@,
{
    assert(v.deep_view() =~= v@);
}

/// The deep view of a sequence, element by element.
pub open spec fn seq_deep<T: DeepView>(s: Seq<T>) -> Seq<T::V> {
    Seq::new(s.len(), |i: int| s[i].deep_view())
}

/// The deep view of a vector is the deep view of its view.
pub broadcast proof fn lemma_vec_deep_view<T: DeepView>(v: Vec<T>)
    ensures
        #[trigger] v.deep_view() == seq_deep(v@),
{
    assert(v.deep_view() =~= seq_deep(v@));
}

/// Pushing onto a vector pushes the element's view onto the deep view.
pub proof fn lemma_seq_deep_push<T: DeepView>(s: Seq<T>, x: T)
    ensures
        seq_deep(s.push(x)) == seq_deep(s).push(x.deep_view()),
{
    assert(seq_deep(s.push(x)) =~= seq_deep(s).push(x.deep_view()));
}

/// The bounds every decoder guarantees: a `Done` position lies between the
/// entry position and the end of the buffer, and a `needed` count never
/// exceeds the remaining input plus one maximal declared length.
pub open spec fn parse_bounds<T>(r: SpecParsed<T>, len: int, pos: int) -> bool {
    &&& (r matches SpecParsed::Done(n, _) ==> pos <= n <= len)
    &&& (r matches SpecParsed::Incomplete(k) ==> 0 <= k <= len - pos + MAX_WIRE)
}

/// The precondition shared by all decoders.
pub open spec fn wire_pos(s: Seq<u8>, pos: int) -> bool {
    pos <= s.len() <= MAX_WIRE
}

/// The bytes of `v` in `[start, end)` as a fresh vector.
pub fn subvec(v: &Vec<u8>, start: usize, end: usize) -> (r: Vec<u8>)
    requires
        start <= end <= v@.len(),
    ensures
        r@ == v@.subrange(start as int, end as int),
{
    let mut r: Vec<u8> = Vec::new();
    let mut i = start;
    while i < end
        invariant
            start <= i <= end <= v@.len(),
            r@ == v@.subrange(start as int, i as int),
        decreases end - i,
    {
        r.push(v[i]);
        proof {
            assert(v@.subrange(start as int, i as int).push(v@[i as int]) =~= v@.subrange(
                start as int,
                i + 1,
            ));
        }
        i = i + 1;
    }
    r
}

/// The four-byte big-endian signed integer at `pos`, which must be in bounds.
pub fn read_i32(input: &Vec<u8>, pos: usize) -> (r: i32)
    requires
        pos + 4 <= input@.len() <= MAX_WIRE,
    ensures
        r == be_i32_at(input@, pos as int),
{
    let u: u32 = (input[pos] as u32) * 0x100_0000 + (input[pos + 1] as u32) * 0x1_0000 + (input[pos
        + 2] as u32) * 0x100 + (input[pos + 3] as u32);
    u32_as_i32(u)
}

pub open spec fn spec_be_i8(s: Seq<u8>, pos: int) -> SpecParsed<i8> {
    if s.len() - pos < 1 {
        SpecParsed::Incomplete(1)
    } else {
        SpecParsed::Done(pos + 1, u8_to_i8(s[pos]))
    }
}

pub open spec fn spec_be_i16(s: Seq<u8>, pos: int) -> SpecParsed<i16> {
    if s.len() - pos < 2 {
        SpecParsed::Incomplete(2)
    } else {
        SpecParsed::Done(pos + 2, be_i16_at(s, pos))
    }
}

pub open spec fn spec_be_i32(s: Seq<u8>, pos: int) -> SpecParsed<i32> {
    if s.len() - pos < 4 {
        SpecParsed::Incomplete(4)
    } else {
        SpecParsed::Done(pos + 4, be_i32_at(s, pos))
    }
}

pub open spec fn spec_be_i64(s: Seq<u8>, pos: int) -> SpecParsed<i64> {
    if s.len() - pos < 8 {
        SpecParsed::Incomplete(8)
    } else {
        SpecParsed::Done(pos + 8, be_i64_at(s, pos))
    }
}

/// One signed byte.
pub fn be_i8(input: &Vec<u8>, pos: usize) -> (r: Parsed<i8>)
    requires
        wire_pos(input@, pos as int),
    ensures
        r@ == spec_be_i8(input@, pos as int),
        parse_bounds(r@, input@.len() as int, pos as int),
{
    if input.len() - pos < 1 {
        Parsed::Incomplete(1)
    } else {
        Parsed::Done(pos + 1, u8_as_i8(input[pos]))
    }
}

/// A two-byte big-endian signed integer.
pub fn be_i16(input: &Vec<u8>, pos: usize) -> (r: Parsed<i16>)
    requires
        wire_pos(input@, pos as int),
    ensures
        r@ == spec_be_i16(input@, pos as int),
        parse_bounds(r@, input@.len() as int, pos as int),
{
    if input.len() - pos < 2 {
        Parsed::Incomplete(2)
    } else {
        let u: u16 = (input[pos] as u16) * 0x100 + (input[pos + 1] as u16);
        Parsed::Done(pos + 2, u16_as_i16(u))
    }
}

/// A four-byte big-endian signed integer.
pub fn be_i32(input: &Vec<u8>, pos: usize) -> (r: Parsed<i32>)
    requires
        wire_pos(input@, pos as int),
    ensures
        r@ == spec_be_i32(input@, pos as int),
        parse_bounds(r@, input@.len() as int, pos as int),
{
    if input.len() - pos < 4 {
        Parsed::Incomplete(4)
    } else {
        let u: u32 = (input[pos] as u32) * 0x100_0000 + (input[pos + 1] as u32) * 0x1_0000 + (
        input[pos + 2] as u32) * 0x100 + (input[pos + 3] as u32);
        Parsed::Done(pos + 4, u32_as_i32(u))
    }
}

/// An eight-byte big-endian signed integer.
pub fn be_i64(input: &Vec<u8>, pos: usize) -> (r: Parsed<i64>)
    requires
        wire_pos(input@, pos as int),
    ensures
        r@ == spec_be_i64(input@, pos as int),
        parse_bounds(r@, input@.len() as int, pos as int),
{
    if input.len() - pos < 8 {
        Parsed::Incomplete(8)
    } else {
        let u: u64 = (input[pos] as u64) * 0x100_0000_0000_0000 + (input[pos + 1] as u64)
            * 0x1_0000_0000_0000 + (input[pos + 2] as u64) * 0x100_0000_0000 + (input[pos
            + 3] as u64) * 0x1_0000_0000 + (input[pos + 4] as u64) * 0x100_0000 + (input[pos
            + 5] as u64) * 0x1_0000 + (input[pos + 6] as u64) * 0x100 + (input[pos + 7] as u64);
        Parsed::Done(pos + 8, u64_as_i64(u))
    }
}

/// Length-prefixed bytes: a four-byte count, then that many bytes. A count of
/// `-1` (a null value) is `NotImplemented`; below `-1` is `ParserError`; a
/// count the remaining input cannot cover reports that count as needed.
pub open spec fn spec_kafka_bytes(s: Seq<u8>, pos: int) -> SpecParsed<Seq<u8>> {
    if s.len() - pos < 4 {
        SpecParsed::Incomplete(4)
    } else {
        let l = be_i32_at(s, pos);
        if l >= 0 {
            if s.len() - pos - 4 >= l {
                SpecParsed::Done(pos + 4 + l, s.subrange(pos + 4, pos + 4 + l))
            } else {
                SpecParsed::Incomplete(l as int)
            }
        } else if l == -1 {
            SpecParsed::Fail(InputError::NotImplemented)
        } else {
            SpecParsed::Fail(InputError::ParserError)
        }
    }
}

pub fn kafka_bytes(input: &Vec<u8>, pos: usize) -> (r: Parsed<Vec<u8>>)
    requires
        wire_pos(input@, pos as int),
    ensures
        r@ == spec_kafka_bytes(input@, pos as int),
        parse_bounds(r@, input@.len() as int, pos as int),
{
    broadcast use lemma_vec_u8_deep_view;

    match be_i32(input, pos) {
        Parsed::Done(n, l) => {
            if l >= 0 {
                let lz = l as usize;
                if input.len() - n >= lz {
                    let body = subvec(input, n, n + lz);
                    Parsed::Done(n + lz, body)
                } else {
                    Parsed::Incomplete(lz)
                }
            } else if l == -1 {
                Parsed::Fail(InputError::NotImplemented)
            } else {
                Parsed::Fail(InputError::ParserError)
            }
        },
        Parsed::Incomplete(k) => Parsed::Incomplete(k),
        Parsed::Fail(e) => Parsed::Fail(e),
    }
}

/// Length-prefixed bytes with a two-byte count: the byte form of a protocol
/// string, with the same sign rules as `kafka_bytes`.
pub open spec fn spec_kafka_bytestring(s: Seq<u8>, pos: int) -> SpecParsed<Seq<u8>> {
    if s.len() - pos < 2 {
        SpecParsed::Incomplete(2)
    } else {
        let l = be_i16_at(s, pos);
        if l >= 0 {
            if s.len() - pos - 2 >= l {
                SpecParsed::Done(pos + 2 + l, s.subrange(pos + 2, pos + 2 + l))
            } else {
                SpecParsed::Incomplete(l as int)
            }
        } else if l == -1 {
            SpecParsed::Fail(InputError::NotImplemented)
        } else {
            SpecParsed::Fail(InputError::ParserError)
        }
    }
}

pub fn kafka_bytestring(input: &Vec<u8>, pos: usize) -> (r: Parsed<Vec<u8>>)
    requires
        wire_pos(input@, pos as int),
    ensures
        r@ == spec_kafka_bytestring(input@, pos as int),
        parse_bounds(r@, input@.len() as int, pos as int),
{
    broadcast use lemma_vec_u8_deep_view;

    match be_i16(input, pos) {
        Parsed::Done(n, l) => {
            if l >= 0 {
                let lz = l as usize;
                if input.len() - n >= lz {
                    let body = subvec(input, n, n + lz);
                    Parsed::Done(n + lz, body)
                } else {
                    Parsed::Incomplete(lz)
                }
            } else if l == -1 {
                Parsed::Fail(InputError::NotImplemented)
            } else {
                Parsed::Fail(InputError::ParserError)
            }
        },
        Parsed::Incomplete(k) => Parsed::Incomplete(k),
        Parsed::Fail(e) => Parsed::Fail(e),
    }
}

/// A protocol string: a two-byte length prefix, then that many bytes, which
/// must form legal UTF-8 or the decode fails with `ParserError`.
pub open spec fn spec_kafka_string(s: Seq<u8>, pos: int) -> SpecParsed<Seq<u8>> {
    match spec_kafka_bytestring(s, pos) {
        SpecParsed::Done(n, bs) => if is_utf8(bs) {
            SpecParsed::Done(n, bs)
        } else {
            SpecParsed::Fail(InputError::ParserError)
        },
        SpecParsed::Incomplete(k) => SpecParsed::Incomplete(k),
        SpecParsed::Fail(e) => SpecParsed::Fail(e),
    }
}

pub fn kafka_string(input: &Vec<u8>, pos: usize) -> (r: Parsed<Vec<u8>>)
    requires
        wire_pos(input@, pos as int),
    ensures
        r@ == spec_kafka_string(input@, pos as int),
        parse_bounds(r@, input@.len() as int, pos as int),
{
    broadcast use lemma_vec_u8_deep_view;

    match kafka_bytestring(input, pos) {
        Parsed::Done(n, bs) => {
            if validate_utf8(&bs, 0, bs.len()) {
                proof {
                    assert(bs@.subrange(0, bs@.len() as int) =~= bs@);
                }
                Parsed::Done(n, bs)
            } else {
                proof {
                    assert(bs@.subrange(0, bs@.len() as int) =~= bs@);
                }
                Parsed::Fail(InputError::ParserError)
            }
        },
        Parsed::Incomplete(k) => Parsed::Incomplete(k),
        Parsed::Fail(e) => Parsed::Fail(e),
    }
}

/// A run of exactly `n` elements of a grammar `f`, beginning at `pos`: the
/// element bodies back to back, with a failing element's needed count raised
/// by the bytes the earlier elements consumed.
pub open spec fn spec_elems<T>(
    s: Seq<u8>,
    pos: int,
    n: int,
    f: spec_fn(Seq<u8>, int) -> SpecParsed<T>,
) -> SpecParsed<Seq<T>>
    decreases n,
{
    if n <= 0 {
        SpecParsed::Done(pos, Seq::<T>::empty())
    } else {
        match f(s, pos) {
            SpecParsed::Done(p1, v) => match spec_elems(s, p1, n - 1, f) {
                SpecParsed::Done(p2, rest) => SpecParsed::Done(p2, seq![v] + rest),
                SpecParsed::Incomplete(k) => SpecParsed::Incomplete((p1 - pos) + k),
                SpecParsed::Fail(e) => SpecParsed::Fail(e),
            },
            SpecParsed::Incomplete(k) => SpecParsed::Incomplete(k),
            SpecParsed::Fail(e) => SpecParsed::Fail(e),
        }
    }
}

/// A length-prefixed array of a grammar `f`: a four-byte count, then that many
/// elements; a negative count is `ParserError`.
pub open spec fn spec_kafka_array<T>(
    s: Seq<u8>,
    pos: int,
    f: spec_fn(Seq<u8>, int) -> SpecParsed<T>,
) -> SpecParsed<Seq<T>> {
    if s.len() - pos < 4 {
        SpecParsed::Incomplete(4)
    } else {
        let c = be_i32_at(s, pos);
        if c < 0 {
            SpecParsed::Fail(InputError::ParserError)
        } else {
            match spec_elems(s, pos + 4, c as int, f) {
                SpecParsed::Done(p, r) => SpecParsed::Done(p, r),
                SpecParsed::Incomplete(k) => SpecParsed::Incomplete(4 + k),
                SpecParsed::Fail(e) => SpecParsed::Fail(e),
            }
        }
    }
}

/// A length-prefixed array of whatever grammar `f` decodes, with `sf` the
/// grammar `f` implements: a four-byte count, then that many elements; a
/// negative count is `ParserError`.
pub fn kafka_array<T: DeepView, F: Fn(&Vec<u8>, usize) -> Parsed<T>>(
    input: &Vec<u8>,
    pos: usize,
    f: &F,
    Ghost(sf): Ghost<spec_fn(Seq<u8>, int) -> SpecParsed<T::V>>,
) -> (r: Parsed<Vec<T>>)
    requires
        wire_pos(input@, pos as int),
        forall|p: usize| wire_pos(input@, p as int) ==> #[trigger] call_requires(*f, (input, p)),
        forall|p: usize, rr: Parsed<T>|
            #[trigger] call_ensures(*f, (input, p), rr) ==> rr@ == sf(input@, p as int)
                && parse_bounds(rr@, input@.len() as int, p as int),
    ensures
        r@ == spec_kafka_array(input@, pos as int, sf),
        parse_bounds(r@, input@.len() as int, pos as int),
{
    broadcast use lemma_vec_deep_view;

    match be_i32(input, pos) {
        Parsed::Done(hn, c) => {
            if c < 0 {
                return Parsed::Fail(InputError::ParserError);
            }
            let mut acc: Vec<T> = Vec::new();
            let mut cur = hn;
            let mut i: i32 = 0;
            proof {
                assert(acc.deep_view() =~= Seq::<T::V>::empty());
                lemma_combine_empty(spec_elems(input@, pos + 4, c as int, sf));
            }
            while i < c
                invariant
                    0 <= i <= c,
                    c == be_i32_at(input@, pos as int),
                    pos + 4 <= cur <= input@.len() <= MAX_WIRE,
                    forall|p: usize| wire_pos(input@, p as int) ==> #[trigger] call_requires(*f, (input, p)),
                    forall|p: usize, rr: Parsed<T>|
                        #[trigger] call_ensures(*f, (input, p), rr) ==> rr@ == sf(input@, p as int)
                            && parse_bounds(rr@, input@.len() as int, p as int),
                    spec_elems(input@, pos + 4, c as int, sf) == elems_combine(
                        cur - (pos + 4),
                        acc.deep_view(),
                        spec_elems(input@, cur as int, (c - i) as int, sf),
                    ),
                decreases c - i,
            {
                let res = f(input, cur);
                proof {
                    assert(call_ensures(*f, (input, cur), res));
                    assert(res@ == sf(input@, cur as int) && parse_bounds(
                        res@,
                        input@.len() as int,
                        cur as int,
                    ));
                }
                match res {
                    Parsed::Done(n, v) => {
                        proof {
                            lemma_elems_step(
                                input@,
                                pos + 4,
                                acc.deep_view(),
                                cur as int,
                                (c - i) as int,
                                sf,
                                n as int,
                                v.deep_view(),
                            );
                            lemma_seq_deep_push(acc@, v);
                        }
                        acc.push(v);
                        cur = n;
                        i = i + 1;
                    },
                    Parsed::Incomplete(k) => {
                        return Parsed::Incomplete((cur - pos) + k);
                    },
                    Parsed::Fail(e) => {
                        return Parsed::Fail(e);
                    },
                }
            }
            proof {
                lemma_elems_done(input@, pos + 4, acc.deep_view(), cur as int, sf);
            }
            Parsed::Done(cur, acc)
        },
        Parsed::Incomplete(k) => Parsed::Incomplete(k),
        Parsed::Fail(e) => Parsed::Fail(e),
    }
}

/// How a run of elements already parsed combines with the outcome of the run
/// still ahead: `off` is how far the parsed elements reach beyond the start of
/// the whole run.
pub open spec fn elems_combine<T>(off: int, acc: Seq<T>, r: SpecParsed<Seq<T>>) -> SpecParsed<
    Seq<T>,
> {
    match r {
        SpecParsed::Done(p, rest) => SpecParsed::Done(p, acc + rest),
        SpecParsed::Incomplete(k) => SpecParsed::Incomplete(off + k),
        SpecParsed::Fail(e) => SpecParsed::Fail(e),
    }
}

/// Consuming one more element keeps the combined outcome of the whole run
/// unchanged: the loop invariant step for every array decoder.
pub proof fn lemma_elems_step<T>(
    s: Seq<u8>,
    p0: int,
    acc: Seq<T>,
    cur: int,
    rem: int,
    f: spec_fn(Seq<u8>, int) -> SpecParsed<T>,
    nn: int,
    vv: T,
)
    requires
        rem > 0,
        f(s, cur) == SpecParsed::Done(nn, vv),
    ensures
        elems_combine(cur - p0, acc, spec_elems(s, cur, rem, f)) == elems_combine(
            nn - p0,
            acc.push(vv),
            spec_elems(s, nn, rem - 1, f),
        ),
{
    match spec_elems(s, nn, rem - 1, f) {
        SpecParsed::Done(p2, r2) => {
            assert(acc + (seq![vv] + r2) =~= acc.push(vv) + r2);
        },
        SpecParsed::Incomplete(k) => {},
        SpecParsed::Fail(e) => {},
    }
}

/// Nothing parsed yet: combining with the whole run is the whole run.
pub proof fn lemma_combine_empty<T>(r: SpecParsed<Seq<T>>)
    ensures
        elems_combine(0, Seq::<T>::empty(), r) == r,
{
    match r {
        SpecParsed::Done(p, rest) => {
            assert(Seq::<T>::empty() + rest =~= rest);
        },
        SpecParsed::Incomplete(k) => {},
        SpecParsed::Fail(e) => {},
    }
}

/// The empty run: combining with it closes the loop of an array decoder.
pub proof fn lemma_elems_done<T>(
    s: Seq<u8>,
    p0: int,
    acc: Seq<T>,
    cur: int,
    f: spec_fn(Seq<u8>, int) -> SpecParsed<T>,
)
    ensures
        elems_combine(cur - p0, acc, spec_elems(s, cur, 0, f)) == SpecParsed::<Seq<T>>::Done(
            cur,
            acc,
        ),
{
    assert(acc + Seq::<T>::empty() =~= acc);
}

/// A run of `n` elements that completes holds exactly `n` values.
pub proof fn lemma_elems_count<T>(
    s: Seq<u8>,
    pos: int,
    n: int,
    f: spec_fn(Seq<u8>, int) -> SpecParsed<T>,
)
    requires
        spec_elems(s, pos, n, f) is Done,
    ensures
        spec_elems(s, pos, n, f) matches SpecParsed::Done(_, v) ==> v.len() == if n <= 0 {
            0
        } else {
            n
        },
    decreases n,
{
    if n > 0 {
        match f(s, pos) {
            SpecParsed::Done(p1, _) => {
                lemma_elems_count(s, p1, n - 1, f);
            },
            SpecParsed::Incomplete(_) => {},
            SpecParsed::Fail(_) => {},
        }
    }
}

/// An array that decodes completely holds exactly as many elements as its
/// declared count, and a negative count never decodes: the count field is
/// enforced, whatever the element grammar is.
pub proof fn lemma_array_count<T>(s: Seq<u8>, pos: int, f: spec_fn(Seq<u8>, int) -> SpecParsed<T>)
    ensures
        spec_kafka_array(s, pos, f) matches SpecParsed::Done(_, v) ==> {
            &&& be_i32_at(s, pos) >= 0
            &&& v.len() == be_i32_at(s, pos)
        },
        s.len() - pos >= 4 && be_i32_at(s, pos) < 0 ==> spec_kafka_array(s, pos, f)
            == SpecParsed::<Seq<T>>::Fail(InputError::ParserError),
{
    if s.len() - pos >= 4 && be_i32_at(s, pos) >= 0 {
        let c = be_i32_at(s, pos);
        if spec_elems(s, pos + 4, c as int, f) is Done {
            lemma_elems_count(s, pos + 4, c as int, f);
        }
    }
}

/// The sign rules of every length-prefixed field: a length below `-1` is
/// `ParserError`, exactly `-1` (a null value) is `NotImplemented`, for bytes
/// and strings alike.
pub proof fn lemma_negative_length(s: Seq<u8>, pos: int)
    ensures
        s.len() - pos >= 4 && be_i32_at(s, pos) < -1 ==> spec_kafka_bytes(s, pos)
            == SpecParsed::<Seq<u8>>::Fail(InputError::ParserError),
        s.len() - pos >= 4 && be_i32_at(s, pos) == -1 ==> spec_kafka_bytes(s, pos)
            == SpecParsed::<Seq<u8>>::Fail(InputError::NotImplemented),
        s.len() - pos >= 2 && be_i16_at(s, pos) < -1 ==> spec_kafka_bytestring(s, pos)
            == SpecParsed::<Seq<u8>>::Fail(InputError::ParserError)
            && spec_kafka_string(s, pos) == SpecParsed::<Seq<u8>>::Fail(InputError::ParserError),
        s.len() - pos >= 2 && be_i16_at(s, pos) == -1 ==> spec_kafka_bytestring(s, pos)
            == SpecParsed::<Seq<u8>>::Fail(InputError::NotImplemented)
            && spec_kafka_string(s, pos) == SpecParsed::<Seq<u8>>::Fail(
            InputError::NotImplemented,
        ),
{
}

} // verus!
