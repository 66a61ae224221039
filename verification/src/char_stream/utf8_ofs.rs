//! Byte-offset character access over a borrowed string.
//!
//! Positions within a stream are byte offsets that always lie on UTF-8
//! character boundaries.  This module provides the specification
//! vocabulary for such offsets - `is_boundary` and `char_index_of` -
//! together with the one executable primitive that decodes the
//! character starting at an offset, and the lemmas that let a stream
//! step from one boundary to the next.

use vstd::prelude::*;
use vstd::string::StringSliceAdditionalSpecFns;
use vstd::string::StrSliceExecFns;
use vstd::utf8::*;

verus! {

/// True when `ofs` lies on a UTF-8 character boundary of `text`, the
/// end of the text included.
pub open spec fn is_boundary(text: &str, ofs: int) -> bool {
    is_char_boundary(text.spec_bytes(), ofs)
}

/// The number of characters of `text` that lie wholly before byte
/// offset `ofs`.
pub open spec fn char_index_of(text: &str, ofs: int) -> int {
    decode_utf8(text.spec_bytes().subrange(0, ofs)).len() as int
}

/// The byte length of the UTF-8 encoding of `c`.
pub open spec fn spec_len_utf8(c: char) -> int {
    encode_scalar(c as u32).len() as int
}

/// A nonempty character sequence has a nonempty UTF-8 encoding.
proof fn lemma_encode_nonempty(chars: Seq<char>)
    requires
        chars.len() > 0,
    ensures
        encode_utf8(chars).len() > 0,
{
    char_is_scalar(chars[0]);
    assert(encode_scalar(chars[0] as u32).len() > 0);
}

/// The encoding of a single character is `encode_scalar` of it.
proof fn lemma_encode_singleton(c: char)
    ensures
        encode_utf8(seq![c]) == encode_scalar(c as u32),
        valid_utf8(encode_scalar(c as u32)),
        decode_utf8(encode_scalar(c as u32)) == seq![c],
{
    let s = seq![c];
    assert(s.drop_first() =~= Seq::<char>::empty());
    assert(encode_utf8(s.drop_first()) =~= Seq::<u8>::empty());
    assert(encode_utf8(s) =~= encode_scalar(c as u32));
    encode_utf8_valid_utf8(s);
    encode_utf8_decode_utf8(s);
}

/// A text has at least as many encoded bytes as characters.
pub proof fn lemma_chars_le_bytes(text: &str)
    ensures
        text@.len() <= text.spec_bytes().len(),
{
    lemma_encode_at_least(text@);
}

proof fn lemma_encode_at_least(chars: Seq<char>)
    ensures
        chars.len() <= encode_utf8(chars).len(),
    decreases chars.len(),
{
    if chars.len() > 0 {
        char_is_scalar(chars[0]);
        assert(encode_scalar(chars[0] as u32).len() >= 1);
        lemma_encode_at_least(chars.drop_first());
    }
}

/// A character boundary lies within the byte bounds of the sequence.
proof fn lemma_is_char_boundary_bounds(bytes: Seq<u8>, i: int)
    requires
        valid_utf8(bytes),
        is_char_boundary(bytes, i),
    ensures
        0 <= i <= bytes.len(),
    decreases bytes.len(),
{
    if i != 0 {
        let l = length_of_first_scalar(bytes);
        lemma_is_char_boundary_bounds(pop_first_scalar(bytes), i - l);
    }
}

/// A character boundary of the text lies within its byte bounds.
pub proof fn lemma_boundary_bounds(text: &str, ofs: int)
    requires
        is_boundary(text, ofs),
    ensures
        0 <= ofs <= text.spec_bytes().len(),
{
    encode_utf8_valid_utf8(text@);
    lemma_is_char_boundary_bounds(text.spec_bytes(), ofs);
}

/// Offset 0 is a boundary, with no characters before it.
pub proof fn lemma_boundary_zero(text: &str)
    ensures
        is_boundary(text, 0),
        char_index_of(text, 0) == 0,
{
    let bytes = text.spec_bytes();
    encode_utf8_valid_utf8(text@);
    assert(bytes.subrange(0, 0) =~= Seq::<u8>::empty());
}

/// The end of the text is a boundary, with every character before it.
pub proof fn lemma_boundary_end(text: &str)
    ensures
        is_boundary(text, text.spec_bytes().len() as int),
        char_index_of(text, text.spec_bytes().len() as int) == text@.len(),
{
    let bytes = text.spec_bytes();
    encode_utf8_valid_utf8(text@);
    is_char_boundary_start_end_of_seq(bytes);
    assert(bytes.subrange(0, bytes.len() as int) =~= bytes);
    encode_utf8_decode_utf8(text@);
}

/// The characters of `text` split at a boundary: those before the
/// boundary, then those after it.
pub proof fn lemma_chars_split(text: &str, ofs: int)
    requires
        is_boundary(text, ofs),
        0 <= ofs <= text.spec_bytes().len(),
    ensures
        0 <= char_index_of(text, ofs) <= text@.len(),
        text@ =~= decode_utf8(text.spec_bytes().subrange(0, ofs)) + decode_utf8(
            text.spec_bytes().subrange(ofs, text.spec_bytes().len() as int),
        ),
        decode_utf8(text.spec_bytes().subrange(0, ofs)) =~= text@.subrange(
            0,
            char_index_of(text, ofs),
        ),
        decode_utf8(text.spec_bytes().subrange(ofs, text.spec_bytes().len() as int)) =~= text@
            .subrange(char_index_of(text, ofs), text@.len() as int),
{
    let bytes = text.spec_bytes();
    encode_utf8_valid_utf8(text@);
    encode_utf8_decode_utf8(text@);
    decode_utf8_split(bytes, ofs);
}

/// From a boundary that is not at the end of the text, the character
/// there is the next character of the text, and the following boundary
/// lies one encoded character further on.
pub proof fn lemma_boundary_step(text: &str, ofs: int)
    requires
        is_boundary(text, ofs),
        0 <= ofs < text.spec_bytes().len(),
    ensures
        char_index_of(text, ofs) < text@.len(),
        ofs + spec_len_utf8(text@[char_index_of(text, ofs)]) <= text.spec_bytes().len(),
        is_boundary(text, ofs + spec_len_utf8(text@[char_index_of(text, ofs)])),
        char_index_of(text, ofs + spec_len_utf8(text@[char_index_of(text, ofs)]))
            == char_index_of(text, ofs) + 1,
{
    let bytes = text.spec_bytes();
    let ci = char_index_of(text, ofs);
    encode_utf8_valid_utf8(text@);
    encode_utf8_decode_utf8(text@);
    valid_utf8_split(bytes, ofs);
    decode_utf8_split(bytes, ofs);
    let prefix = bytes.subrange(0, ofs);
    let suffix = bytes.subrange(ofs, bytes.len() as int);
    let tail = decode_utf8(suffix);
    // The suffix is nonempty and valid, so it decodes to at least one character.
    assert(tail.len() > 0);
    assert(ci < text@.len());
    let c = tail[0];
    assert(c == text@[ci]);
    // The first scalar of the suffix is the encoding of c.
    decode_utf8_first_scalar(suffix);
    assert(c == decode_first_scalar(suffix) as char);
    let l = spec_len_utf8(c);
    assert(take_first_scalar(suffix) == encode_scalar(c as u32));
    assert(length_of_first_scalar(suffix) <= suffix.len());
    assert(length_of_first_scalar(suffix) == take_first_scalar(suffix).len());
    assert(length_of_first_scalar(suffix) == l);
    assert(l <= suffix.len());
    assert(ofs + l <= bytes.len());
    // The extended prefix is the old prefix plus the encoding of c.
    let prefix2 = bytes.subrange(0, ofs + l);
    assert(prefix2 =~= prefix + encode_scalar(c as u32)) by {
        assert(take_first_scalar(suffix) =~= bytes.subrange(ofs, ofs + l));
    }
    // The extended prefix is itself valid UTF-8.
    lemma_encode_singleton(c);
    valid_utf8_concat(prefix, encode_scalar(c as u32));
    // ofs + l is a boundary of the whole text.
    if ofs + l == bytes.len() {
        is_char_boundary_start_end_of_seq(bytes);
    } else {
        let rest = pop_first_scalar(suffix);
        assert(valid_utf8(rest));
        assert(rest.len() > 0);
        assert(rest[0] == bytes[ofs + l]);
        assert(valid_first_scalar(rest));
        assert(!is_continuation_byte(rest[0])) by {
            if is_leading_byte_width_1(rest[0]) {
            } else if is_leading_byte_width_2(rest[0]) {
            } else if is_leading_byte_width_3(rest[0]) {
            } else {
                assert(is_leading_byte_width_4(rest[0]));
            }
        }
        is_char_boundary_iff_not_is_continuation_byte(bytes, ofs + l);
    }
    // One more character lies before the extended boundary.
    assert(is_char_boundary(prefix2, ofs)) by {
        if ofs == 0 {
        } else {
            assert(prefix2[ofs] == encode_scalar(c as u32)[0]);
            assert(!is_continuation_byte(prefix2[ofs])) by {
                assert(valid_first_scalar(encode_scalar(c as u32)));
                if is_leading_byte_width_1(prefix2[ofs]) {
                } else if is_leading_byte_width_2(prefix2[ofs]) {
                } else if is_leading_byte_width_3(prefix2[ofs]) {
                } else {
                    assert(is_leading_byte_width_4(prefix2[ofs]));
                }
            }
            is_char_boundary_iff_not_is_continuation_byte(prefix2, ofs);
        }
    }
    decode_utf8_split(prefix2, ofs);
    assert(prefix2.subrange(0, ofs) =~= prefix);
    assert(prefix2.subrange(ofs, prefix2.len() as int) =~= encode_scalar(c as u32));
    assert(decode_utf8(prefix2) =~= decode_utf8(prefix) + seq![c]);
}

/// A boundary of the whole text that lies before another boundary is
/// also a boundary of the prefix ending there.
pub proof fn lemma_boundary_in_prefix(text: &str, s: int, e: int)
    requires
        is_boundary(text, s),
        is_boundary(text, e),
        0 <= s <= e <= text.spec_bytes().len(),
    ensures
        is_char_boundary(text.spec_bytes().subrange(0, e), s),
        valid_utf8(text.spec_bytes().subrange(0, e)),
{
    let bytes = text.spec_bytes();
    encode_utf8_valid_utf8(text@);
    valid_utf8_split(bytes, e);
    let prefix = bytes.subrange(0, e);
    if s == e {
        is_char_boundary_start_end_of_seq(prefix);
    } else if s == 0 {
        is_char_boundary_start_end_of_seq(prefix);
    } else {
        is_char_boundary_iff_not_is_continuation_byte(bytes, s);
        is_char_boundary_iff_not_is_continuation_byte(prefix, s);
    }
}

/// Between two boundaries, the bytes decode to exactly the characters
/// between the two character indices.  This is what makes extracting
/// the text of a span well defined, and concatenating the texts of
/// adjacent spans reassemble the original text.
pub proof fn lemma_span_chars(text: &str, s: int, e: int)
    requires
        is_boundary(text, s),
        is_boundary(text, e),
        0 <= s <= e <= text.spec_bytes().len(),
    ensures
        0 <= char_index_of(text, s) <= char_index_of(text, e) <= text@.len(),
        decode_utf8(text.spec_bytes().subrange(s, e)) =~= text@.subrange(
            char_index_of(text, s),
            char_index_of(text, e),
        ),
        valid_utf8(text.spec_bytes().subrange(s, e)),
{
    let bytes = text.spec_bytes();
    encode_utf8_valid_utf8(text@);
    lemma_chars_split(text, s);
    lemma_chars_split(text, e);
    lemma_boundary_in_prefix(text, s, e);
    let prefix_e = bytes.subrange(0, e);
    valid_utf8_split(prefix_e, s);
    decode_utf8_split(prefix_e, s);
    assert(prefix_e.subrange(0, s) =~= bytes.subrange(0, s));
    assert(prefix_e.subrange(s, prefix_e.len() as int) =~= bytes.subrange(s, e));
    assert(decode_utf8(bytes.subrange(0, e)) =~= decode_utf8(bytes.subrange(0, s)) + decode_utf8(
        bytes.subrange(s, e),
    ));
}

/// A run of ASCII bytes after a boundary corresponds character for
/// character to the text: each byte is one character, and the offset
/// after the run is again a boundary.
pub proof fn lemma_ascii_run(text: &str, ofs: int, n: int)
    requires
        is_boundary(text, ofs),
        0 <= ofs,
        0 <= n,
        ofs + n <= text.spec_bytes().len(),
        forall|k: int| 0 <= k < n ==> #[trigger] text.spec_bytes()[ofs + k] < 128,
    ensures
        is_boundary(text, ofs + n),
        char_index_of(text, ofs + n) == char_index_of(text, ofs) + n,
        char_index_of(text, ofs) + n <= text@.len(),
        forall|k: int|
            0 <= k < n ==> (#[trigger] text@[char_index_of(text, ofs) + k] as u32)
                == text.spec_bytes()[ofs + k] as u32,
    decreases n,
{
    lemma_chars_split(text, ofs);
    if n > 0 {
        let bytes = text.spec_bytes();
        assert(bytes[ofs + 0] < 128);
        lemma_boundary_step_ascii(text, ofs);
        assert forall|k: int| 0 <= k < n - 1 implies #[trigger] bytes[(ofs + 1) + k] < 128 by {
            assert(bytes[ofs + (1 + k)] < 128);
        }
        lemma_ascii_run(text, ofs + 1, n - 1);
        let ci = char_index_of(text, ofs);
        assert(char_index_of(text, ofs + 1) == ci + 1);
        assert(char_index_of(text, (ofs + 1) + (n - 1)) == char_index_of(text, ofs + 1) + (n - 1));
        assert forall|k: int|
            0 <= k < n implies (#[trigger] text@[ci + k] as u32) == bytes[ofs + k] as u32 by {
            if k > 0 {
                assert((text@[char_index_of(text, ofs + 1) + (k - 1)] as u32) == bytes[(ofs + 1) + (
                k - 1)] as u32);
            }
        }
    }
}

/// At a boundary whose byte is ASCII, the character there is that
/// byte, its encoding is one byte long, and the next offset is again a
/// boundary.
proof fn lemma_boundary_step_ascii(text: &str, ofs: int)
    requires
        is_boundary(text, ofs),
        0 <= ofs < text.spec_bytes().len(),
        text.spec_bytes()[ofs] < 128,
    ensures
        char_index_of(text, ofs) < text@.len(),
        (text@[char_index_of(text, ofs)] as u32) == text.spec_bytes()[ofs] as u32,
        spec_len_utf8(text@[char_index_of(text, ofs)]) == 1,
        is_boundary(text, ofs + 1),
        char_index_of(text, ofs + 1) == char_index_of(text, ofs) + 1,
{
    let bytes = text.spec_bytes();
    let ci = char_index_of(text, ofs);
    encode_utf8_valid_utf8(text@);
    encode_utf8_decode_utf8(text@);
    valid_utf8_split(bytes, ofs);
    lemma_chars_split(text, ofs);
    let suffix = bytes.subrange(ofs, bytes.len() as int);
    let tail = decode_utf8(suffix);
    assert(tail.len() > 0);
    let c = tail[0];
    assert(c == text@[ci]);
    decode_utf8_first_scalar(suffix);
    assert(c == decode_first_scalar(suffix) as char);
    assert(is_leading_byte_width_1(suffix[0]));
    assert(length_of_first_scalar(suffix) == 1);
    assert(take_first_scalar(suffix) == encode_scalar(c as u32));
    assert(spec_len_utf8(c) == 1);
    assert(encode_scalar(c as u32)[0] == suffix[0]);
    assert(c as u32 == suffix[0] as u32) by {
        let u = c as u32;
        char_is_scalar(c);
        assert(encode_scalar(u).len() == 1);
        assert(has_width_1_encoding(u));
        let b = suffix[0];
        assert(b == (u & 0x7F) as u8);
        assert(u < 0x80 && b == (u & 0x7F) as u8 ==> b as u32 == u) by (bit_vector);
    }
    lemma_boundary_step(text, ofs);
}

/// The byte length of the UTF-8 encoding of a single character.
pub fn char_len_utf8(c: char) -> (r: usize)
    ensures
        r == spec_len_utf8(c),
        1 <= r <= 4,
{
    let u = c as u32;
    proof {
        char_is_scalar(c);
    }
    if u < 0x80 {
        1
    } else if u < 0x800 {
        2
    } else if u < 0x10000 {
        3
    } else {
        4
    }
}

/// The character starting at byte offset `ofs` of `text`, or `None`
/// when `ofs` is the end of the text.
pub fn char_at_ofs<'a>(text: &'a str, ofs: usize) -> (r: Option<char>)
    requires
        is_boundary(text, ofs as int),
    ensures
        match r {
            Some(c) => {
                &&& char_index_of(text, ofs as int) < text@.len()
                &&& c == text@[char_index_of(text, ofs as int)]
                &&& (ofs as int) < text.spec_bytes().len()
            },
            None => ofs == text.spec_bytes().len(),
        },
{
    proof {
        lemma_boundary_bounds(text, ofs as int);
    }
    let (_pre, rest) = text.split_at(ofs);
    proof {
        assert(rest.spec_bytes() =~= text.spec_bytes().subrange(
            ofs as int,
            text.spec_bytes().len() as int,
        ));
    }
    if rest.is_empty() {
        proof {
            assert(encode_utf8(rest@) =~= Seq::<u8>::empty());
            assert(rest.spec_bytes().len() == 0);
        }
        None
    } else {
        proof {
            lemma_encode_nonempty(rest@);
            lemma_chars_split(text, ofs as int);
            encode_utf8_decode_utf8(rest@);
            assert(rest@ =~= text@.subrange(
                char_index_of(text, ofs as int),
                text@.len() as int,
            ));
        }
        Some(rest.get_char(0))
    }
}

} // verus!
