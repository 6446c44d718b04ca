//! The substring test behind signature matching: a literal search, byte by
//! byte, proved to find exactly the occurrences of the pattern's characters
//! among the body's characters.

use vstd::prelude::*;
use vstd::utf8::{
    decode_utf8, decode_utf8_split, encode_utf8, encode_utf8_decode_utf8, encode_utf8_valid_utf8,
    is_char_boundary, is_char_boundary_iff_not_is_continuation_byte,
    is_char_boundary_start_end_of_seq, length_of_first_scalar, pop_first_scalar, valid_utf8,
    valid_utf8_split,
};

verus! {

/// `pattern` stands in `body` at offset `at`.
pub open spec fn occurs_at<A>(body: Seq<A>, pattern: Seq<A>, at: int) -> bool {
    &&& 0 <= at
    &&& at + pattern.len() <= body.len()
    &&& body.subrange(at, at + pattern.len()) == pattern
}

/// `pattern` stands somewhere in `body` as a contiguous run.
pub open spec fn occurs_in<A>(body: Seq<A>, pattern: Seq<A>) -> bool {
    exists|at: int| occurs_at(body, pattern, at)
}

/// The empty pattern occurs in every body.
pub proof fn lemma_empty_pattern_occurs<A>(body: Seq<A>)
    ensures
        occurs_in(body, Seq::<A>::empty()),
{
    assert(body.subrange(0, 0) =~= Seq::<A>::empty());
    assert(occurs_at(body, Seq::<A>::empty(), 0));
}

/// A pattern longer than the body does not occur in it; in particular the
/// empty body holds only the empty pattern.
pub proof fn lemma_longer_pattern_absent<A>(body: Seq<A>, pattern: Seq<A>)
    requires
        pattern.len() > body.len(),
    ensures
        !occurs_in(body, pattern),
{
}

/// The encoding of two runs of characters, one after the other, is the
/// encoding of the first followed by that of the second.
proof fn lemma_encode_concat(a: Seq<char>, b: Seq<char>)
    ensures
        encode_utf8(a + b) == encode_utf8(a) + encode_utf8(b),
    decreases a.len(),
{
    if a.len() == 0 {
        assert(encode_utf8(a) + encode_utf8(b) =~= encode_utf8(b));
    } else {
        lemma_encode_concat(a.drop_first(), b);
        assert((a + b).drop_first() =~= a.drop_first() + b);
    }
}

/// Where the characters of the pattern stand in the body, its bytes stand
/// in the body's bytes.
proof fn lemma_characters_to_bytes(body: Seq<char>, pattern: Seq<char>, at: int)
    requires
        occurs_at(body, pattern, at),
    ensures
        occurs_in(encode_utf8(body), encode_utf8(pattern)),
{
    let before = body.subrange(0, at);
    let after = body.subrange(at + pattern.len(), body.len() as int);
    assert(body =~= before + pattern + after);
    lemma_encode_concat(before, pattern);
    lemma_encode_concat(before + pattern, after);
    let offset = encode_utf8(before).len() as int;
    assert(encode_utf8(body).subrange(offset, offset + encode_utf8(pattern).len())
        =~= encode_utf8(pattern));
    assert(occurs_at(encode_utf8(body), encode_utf8(pattern), offset));
}

/// A well-formed text that begins another well-formed text ends where a
/// character of the other ends.
proof fn lemma_prefix_ends_on_boundary(whole: Seq<u8>, prefix: Seq<u8>)
    requires
        valid_utf8(whole),
        valid_utf8(prefix),
        prefix.len() <= whole.len(),
        whole.subrange(0, prefix.len() as int) == prefix,
    ensures
        is_char_boundary(whole, prefix.len() as int),
    decreases prefix.len(),
{
    if prefix.len() > 0 {
        let width = length_of_first_scalar(prefix);
        assert(whole[0] == whole.subrange(0, prefix.len() as int)[0]);
        let rest = pop_first_scalar(whole);
        let prefix_rest = pop_first_scalar(prefix);
        assert(rest.subrange(0, prefix_rest.len() as int) =~= prefix_rest) by {
            assert forall|i: int| 0 <= i < prefix_rest.len() implies rest.subrange(
                0,
                prefix_rest.len() as int,
            )[i] == prefix_rest[i] by {
                assert(whole.subrange(0, prefix.len() as int)[i + width] == prefix[i + width]);
            }
        }
        lemma_prefix_ends_on_boundary(rest, prefix_rest);
    }
}

/// Where the bytes of the pattern stand in the body's bytes, its characters
/// stand in the body: an occurrence cannot begin or end inside a character.
proof fn lemma_bytes_to_characters(body: Seq<char>, pattern: Seq<char>, at: int)
    requires
        occurs_at(encode_utf8(body), encode_utf8(pattern), at),
    ensures
        occurs_in(body, pattern),
{
    let bytes = encode_utf8(body);
    let wanted = encode_utf8(pattern);
    let width = wanted.len() as int;
    encode_utf8_valid_utf8(body);
    encode_utf8_valid_utf8(pattern);
    encode_utf8_decode_utf8(body);
    encode_utf8_decode_utf8(pattern);
    if width == 0 {
        lemma_empty_pattern_occurs(body);
    } else {
        is_char_boundary_start_end_of_seq(wanted);
        is_char_boundary_iff_not_is_continuation_byte(wanted, 0);
        is_char_boundary_iff_not_is_continuation_byte(bytes, at);
        valid_utf8_split(bytes, at);
        decode_utf8_split(bytes, at);
        let head = bytes.subrange(0, at);
        let tail = bytes.subrange(at, bytes.len() as int);
        assert(tail.subrange(0, width) =~= wanted);
        lemma_prefix_ends_on_boundary(tail, wanted);
        valid_utf8_split(tail, width);
        decode_utf8_split(tail, width);
        let before = decode_utf8(head);
        let after = decode_utf8(tail.subrange(width, tail.len() as int));
        assert(body =~= before + (pattern + after));
        let start = before.len() as int;
        assert(body.subrange(start, start + pattern.len()) =~= pattern);
        assert(occurs_at(body, pattern, start));
    }
}

/// Searching the bytes of two strings finds what searching their characters
/// finds.
pub proof fn lemma_occurrence_by_bytes(body: Seq<char>, pattern: Seq<char>)
    ensures
        occurs_in(body, pattern) <==> occurs_in(encode_utf8(body), encode_utf8(pattern)),
{
    if occurs_in(body, pattern) {
        let at = choose|at: int| occurs_at(body, pattern, at);
        lemma_characters_to_bytes(body, pattern, at);
    }
    if occurs_in(encode_utf8(body), encode_utf8(pattern)) {
        let at = choose|at: int| occurs_at(encode_utf8(body), encode_utf8(pattern), at);
        lemma_bytes_to_characters(body, pattern, at);
    }
}

/// Whether `pattern` stands in `body` at `at`.
fn stands_at(body: &[u8], pattern: &[u8], at: usize) -> (found: bool)
    requires
        at + pattern@.len() <= body@.len(),
    ensures
        found == occurs_at(body@, pattern@, at as int),
{
    let width = pattern.len();
    let length = body.len();
    let mut i: usize = 0;
    while i < width
        invariant
            i <= width,
            width == pattern@.len(),
            length == body@.len(),
            at + width <= length,
            forall|k: int| 0 <= k < i ==> body@[at + k] == pattern@[k],
        decreases width - i,
    {
        if body[at + i] != pattern[i] {
            return false;
        }
        i += 1;
    }
    assert(body@.subrange(at as int, at + pattern@.len()) =~= pattern@);
    true
}

/// Whether `pattern` stands somewhere in `body`.
fn bytes_contain(body: &[u8], pattern: &[u8]) -> (found: bool)
    ensures
        found == occurs_in(body@, pattern@),
{
    if pattern.len() > body.len() {
        return false;
    }
    let last = body.len() - pattern.len();
    let mut at: usize = 0;
    while at < last
        invariant
            at <= last,
            last == body@.len() - pattern@.len(),
            forall|k: int| 0 <= k < at ==> !occurs_at(body@, pattern@, k),
        decreases last - at,
    {
        if stands_at(body, pattern, at) {
            return true;
        }
        at += 1;
    }
    stands_at(body, pattern, last)
}

/// Literal, case-sensitive substring test: whether the characters of
/// `pattern` stand somewhere in `body`, one after the other.
pub fn contains(body: &str, pattern: &str) -> (found: bool)
    ensures
        found == occurs_in(body@, pattern@),
{
    proof {
        lemma_occurrence_by_bytes(body@, pattern@);
    }
    bytes_contain(body.as_bytes(), pattern.as_bytes())
}

} // verus!
