//! Comparisons whose running time depends only on the lengths of their
//! inputs, never on where the first difference lies.

use vstd::prelude::*;
use vstd::utf8::{encode_utf8_decode_utf8, decode_utf8, encode_utf8};
use crate::primitives::{argon2_marker, has_argon2_marker};

verus! {

/// Equality of two byte strings; once the lengths agree, every byte is read
/// and the differences are accumulated without an early exit.
pub fn constant_time_eq(a: &[u8], b: &[u8]) -> (r: bool)
    ensures
        r == (a@ == b@),
{
    if a.len() != b.len() {
        return false;
    }
    let mut diff: u8 = 0;
    let mut i: usize = 0;
    assert(a@.subrange(0, 0) == b@.subrange(0, 0));
    while i < a.len()
        invariant
            a@.len() == b@.len(),
            0 <= i <= a@.len(),
            (diff == 0) == (a@.subrange(0, i as int) == b@.subrange(0, i as int)),
        decreases a@.len() - i,
    {
        let ai: u8 = a[i];
        let bi: u8 = b[i];
        let x: u8 = ai ^ bi;
        assert((x == 0) == (ai == bi)) by (bit_vector)
            requires x == ai ^ bi;
        let old_diff: u8 = diff;
        diff = diff | x;
        assert((diff == 0) == (old_diff == 0 && x == 0)) by (bit_vector)
            requires diff == old_diff | x;
        proof {
            let sa = a@.subrange(0, i + 1);
            let sb = b@.subrange(0, i + 1);
            assert(sa == a@.subrange(0, i as int).push(a@[i as int]));
            assert(sb == b@.subrange(0, i as int).push(b@[i as int]));
            if sa == sb {
                assert(a@.subrange(0, i as int) == sa.drop_last());
                assert(b@.subrange(0, i as int) == sb.drop_last());
                assert(a@[i as int] == sa.last());
            }
        }
        i = i + 1;
    }
    assert(a@.subrange(0, a@.len() as int) == a@);
    assert(b@.subrange(0, b@.len() as int) == b@);
    diff == 0
}

/// Equality of two texts, compared through their UTF-8 bytes.
pub fn text_eq(a: &str, b: &str) -> (r: bool)
    ensures
        r == (a@ == b@),
{
    let r = constant_time_eq(a.as_bytes(), b.as_bytes());
    proof {
        encode_utf8_decode_utf8(a@);
        encode_utf8_decode_utf8(b@);
        if a@ == b@ {
            assert(encode_utf8(a@) == encode_utf8(b@));
        }
        if encode_utf8(a@) == encode_utf8(b@) {
            assert(decode_utf8(encode_utf8(a@)) == decode_utf8(encode_utf8(b@)));
        }
    }
    r
}

/// Whether `s` carries the self-describing prefix of an Argon2 PHC string.
pub fn starts_with_argon2_marker(s: &str) -> (r: bool)
    ensures
        r == has_argon2_marker(s@),
{
    let marker = "$argon2";
    proof {
        reveal_strlit("$argon2");
    }
    assert(marker@ == argon2_marker());
    let n: usize = s.unicode_len();
    if n < 7 {
        return false;
    }
    let mut i: usize = 0;
    while i < 7
        invariant
            0 <= i <= 7,
            n == s@.len(),
            n >= 7,
            marker@ == argon2_marker(),
            forall|j: int| 0 <= j < i ==> s@[j] == argon2_marker()[j],
        decreases 7 - i,
    {
        if s.get_char(i) != marker.get_char(i) {
            assert(s@.subrange(0, 7)[i as int] != argon2_marker()[i as int]);
            return false;
        }
        i = i + 1;
    }
    assert(s@.subrange(0, 7) == argon2_marker());
    true
}

} // verus!
