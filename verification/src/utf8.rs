//! A self-contained UTF-8 validity predicate and its verified checker, used to
//! validate decoded protocol strings.

use vstd::prelude::*;

verus! {

/// A UTF-8 continuation byte.
pub open spec fn is_cont(b: u8) -> bool {
    0x80 <= b <= 0xbf
}

/// Whether `s` is a well-formed UTF-8 byte sequence: each leading byte opens a
/// sequence of the right length, with overlong encodings, surrogates and
/// values above U+10FFFF excluded.
pub open spec fn is_utf8(s: Seq<u8>) -> bool
    decreases s.len(),
{
    if s.len() == 0 {
        true
    } else {
        let b0 = s[0];
        if b0 < 0x80 {
            is_utf8(s.skip(1))
        } else if 0xc2 <= b0 <= 0xdf {
            s.len() >= 2 && is_cont(s[1]) && is_utf8(s.skip(2))
        } else if b0 == 0xe0 {
            s.len() >= 3 && 0xa0 <= s[1] <= 0xbf && is_cont(s[2]) && is_utf8(s.skip(3))
        } else if (0xe1 <= b0 <= 0xec) || b0 == 0xee || b0 == 0xef {
            s.len() >= 3 && is_cont(s[1]) && is_cont(s[2]) && is_utf8(s.skip(3))
        } else if b0 == 0xed {
            s.len() >= 3 && 0x80 <= s[1] <= 0x9f && is_cont(s[2]) && is_utf8(s.skip(3))
        } else if b0 == 0xf0 {
            s.len() >= 4 && 0x90 <= s[1] <= 0xbf && is_cont(s[2]) && is_cont(s[3]) && is_utf8(
                s.skip(4),
            )
        } else if 0xf1 <= b0 <= 0xf3 {
            s.len() >= 4 && is_cont(s[1]) && is_cont(s[2]) && is_cont(s[3]) && is_utf8(s.skip(4))
        } else if b0 == 0xf4 {
            s.len() >= 4 && 0x80 <= s[1] <= 0x8f && is_cont(s[2]) && is_cont(s[3]) && is_utf8(
                s.skip(4),
            )
        } else {
            false
        }
    }
}

fn cont_ok(b: u8) -> (r: bool)
    ensures
        r == is_cont(b),
{
    0x80 <= b && b <= 0xbf
}

/// Whether the bytes of `v` in `[start, end)` are well-formed UTF-8.
pub fn validate_utf8(v: &Vec<u8>, start: usize, end: usize) -> (r: bool)
    requires
        start <= end <= v@.len(),
    ensures
        r == is_utf8(v@.subrange(start as int, end as int)),
{
    let mut i = start;
    while i < end
        invariant
            start <= i <= end <= v@.len(),
            is_utf8(v@.subrange(start as int, end as int)) == is_utf8(
                v@.subrange(i as int, end as int),
            ),
        decreases end - i,
    {
        let b0 = v[i];
        let rem = end - i;
        let step: usize = if b0 < 0x80 {
            1
        } else if 0xc2 <= b0 && b0 <= 0xdf {
            if !(rem >= 2 && cont_ok(v[i + 1])) {
                return false;
            }
            2
        } else if b0 == 0xe0 {
            if !(rem >= 3 && 0xa0 <= v[i + 1] && v[i + 1] <= 0xbf && cont_ok(v[i + 2])) {
                return false;
            }
            3
        } else if (0xe1 <= b0 && b0 <= 0xec) || b0 == 0xee || b0 == 0xef {
            if !(rem >= 3 && cont_ok(v[i + 1]) && cont_ok(v[i + 2])) {
                return false;
            }
            3
        } else if b0 == 0xed {
            if !(rem >= 3 && 0x80 <= v[i + 1] && v[i + 1] <= 0x9f && cont_ok(v[i + 2])) {
                return false;
            }
            3
        } else if b0 == 0xf0 {
            if !(rem >= 4 && 0x90 <= v[i + 1] && v[i + 1] <= 0xbf && cont_ok(v[i + 2]) && cont_ok(
                v[i + 3],
            )) {
                return false;
            }
            4
        } else if 0xf1 <= b0 && b0 <= 0xf3 {
            if !(rem >= 4 && cont_ok(v[i + 1]) && cont_ok(v[i + 2]) && cont_ok(v[i + 3])) {
                return false;
            }
            4
        } else if b0 == 0xf4 {
            if !(rem >= 4 && 0x80 <= v[i + 1] && v[i + 1] <= 0x8f && cont_ok(v[i + 2]) && cont_ok(
                v[i + 3],
            )) {
                return false;
            }
            4
        } else {
            return false;
        };
        proof {
            assert(v@.subrange(i as int, end as int).skip(step as int) =~= v@.subrange(
                i + step as int,
                end as int,
            ));
        }
        i = i + step;
    }
    proof {
        assert(v@.subrange(end as int, end as int) =~= Seq::<u8>::empty());
    }
    true
}

} // verus!
