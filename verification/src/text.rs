//! Helpers on text: cutting a string to a byte budget without splitting a
//! character, and comparing a string's beginning with a short prefix.

use vstd::prelude::*;
use vstd::string::*;
use vstd::utf8::*;

verus! {

/// The largest character boundary of `bytes` that is at most `max`.
pub open spec fn boundary_at_or_below(bytes: Seq<u8>, max: int) -> int
    decreases max,
{
    if max <= 0 {
        0
    } else if max <= bytes.len() && is_char_boundary(bytes, max) {
        max
    } else {
        boundary_at_or_below(bytes, max - 1)
    }
}

/// The longest prefix of `s`, made of whole characters, whose encoding takes
/// at most `max` bytes.
pub open spec fn spec_slice_up_to(s: Seq<char>, max: int) -> Seq<char> {
    let bytes = encode_utf8(s);
    if bytes.len() <= max {
        s
    } else {
        decode_utf8(bytes.subrange(0, boundary_at_or_below(bytes, max)))
    }
}

/// Number of bytes that `s` takes when encoded.
pub open spec fn byte_len(s: Seq<char>) -> nat {
    encode_utf8(s).len()
}

/// Cuts `s` to at most `max_len` bytes, backing off to the nearest
/// character boundary so that no character is split.
pub fn slice_up_to(s: &str, max_len: usize) -> (r: &str)
    ensures
        r@ == spec_slice_up_to(s@, max_len as int),
        byte_len(r@) <= max_len || byte_len(r@) == byte_len(s@),
        byte_len(s@) <= max_len ==> r@ == s@,
{
    broadcast use encode_utf8_valid_utf8, encode_utf8_decode_utf8;
    broadcast use is_char_boundary_start_end_of_seq;

    if max_len >= s.as_bytes().len() {
        return s;
    }
    let ghost bytes = s.spec_bytes();
    let mut idx: usize = max_len;
    while !s.is_char_boundary(idx)
        invariant
            bytes == s.spec_bytes(),
            valid_utf8(bytes),
            0 <= idx <= max_len < bytes.len(),
            boundary_at_or_below(bytes, idx as int) == boundary_at_or_below(bytes, max_len as int),
        decreases idx,
    {
        assert(idx > 0) by {
            assert(is_char_boundary(bytes, 0));
        }
        idx -= 1;
    }
    let (head, _tail) = s.split_at(idx);
    proof {
        assert(boundary_at_or_below(bytes, idx as int) == idx);
        assert(head.spec_bytes() == bytes.subrange(0, idx as int));
        assert(decode_utf8(encode_utf8(head@)) == head@);
    }
    head
}

/// True when `s` begins with the characters of `prefix`.
pub open spec fn spec_starts_with(s: Seq<char>, prefix: Seq<char>) -> bool {
    prefix.len() <= s.len() && s.subrange(0, prefix.len() as int) == prefix
}

/// Whether `s` begins with `prefix`.
pub fn starts_with(s: &str, prefix: &str) -> (r: bool)
    ensures
        r == spec_starts_with(s@, prefix@),
{
    let n = prefix.unicode_len();
    if s.unicode_len() < n {
        return false;
    }
    let mut i: usize = 0;
    while i < n
        invariant
            n == prefix@.len(),
            n <= s@.len(),
            i <= n,
            s@.subrange(0, i as int) == prefix@.subrange(0, i as int),
        decreases n - i,
    {
        if s.get_char(i) != prefix.get_char(i) {
            proof {
                assert(s@.subrange(0, n as int)[i as int] != prefix@[i as int]);
            }
            return false;
        }
        proof {
            assert(s@.subrange(0, i + 1) =~= s@.subrange(0, i as int).push(s@[i as int]));
            assert(prefix@.subrange(0, i + 1) =~= prefix@.subrange(0, i as int).push(
                prefix@[i as int],
            ));
        }
        i += 1;
    }
    proof {
        assert(prefix@.subrange(0, n as int) =~= prefix@);
    }
    true
}

} // verus!
