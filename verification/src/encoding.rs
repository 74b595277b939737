//! Byte offsets of characters in UTF-8 encoded text.
//!
//! Text is modelled as a sequence of characters; its stored form is the
//! UTF-8 encoding of that sequence. This module relates positions counted
//! in characters to positions counted in bytes.

use vstd::prelude::*;
use vstd::utf8::*;

verus! {

/// Number of bytes in the UTF-8 encoding of `c`.
pub open spec fn char_width(c: char) -> nat {
    encode_scalar(c as u32).len()
}

/// Byte offset at which the character with index `k` starts: the length of
/// the encoding of the first `k` characters. For `k == chars.len()` this is
/// the length of the whole encoding.
pub open spec fn byte_offset(chars: Seq<char>, k: int) -> nat {
    encode_utf8(chars.take(k)).len()
}

/// Every character takes between one and four bytes.
pub proof fn lemma_char_width_bounds(c: char)
    ensures
        1 <= char_width(c) <= 4,
{
}

/// The encoding of a concatenation is the concatenation of the encodings.
pub proof fn lemma_encode_concat(a: Seq<char>, b: Seq<char>)
    ensures
        encode_utf8(a + b) == encode_utf8(a) + encode_utf8(b),
    decreases a.len(),
{
    if a.len() > 0 {
        lemma_encode_concat(a.drop_first(), b);
        assert((a + b).drop_first() == a.drop_first() + b);
    }
}

/// The encoding of a single character.
pub proof fn lemma_encode_single(c: char)
    ensures
        encode_utf8(seq![c]) == encode_scalar(c as u32),
{
    let s = seq![c];
    assert(encode_utf8(s) == encode_scalar(c as u32) + encode_utf8(s.drop_first()));
}

/// Stepping over one character advances the byte offset by its width.
pub proof fn lemma_byte_offset_step(chars: Seq<char>, k: int)
    requires
        0 <= k < chars.len(),
    ensures
        byte_offset(chars, k + 1) == byte_offset(chars, k) + char_width(chars[k]),
        encode_utf8(chars.take(k + 1)) == encode_utf8(chars.take(k)) + encode_scalar(
            chars[k] as u32,
        ),
{
    assert(chars.take(k + 1) == chars.take(k) + seq![chars[k]]);
    lemma_encode_concat(chars.take(k), seq![chars[k]]);
    lemma_encode_single(chars[k]);
}

/// Byte offsets grow with character indices, by at least one byte per
/// character.
pub proof fn lemma_byte_offset_monotonic(chars: Seq<char>, i: int, j: int)
    requires
        0 <= i <= j <= chars.len(),
    ensures
        byte_offset(chars, i) + (j - i) <= byte_offset(chars, j),
    decreases j - i,
{
    if i < j {
        lemma_byte_offset_monotonic(chars, i, j - 1);
        lemma_byte_offset_step(chars, j - 1);
    }
}

/// The first character starts at byte 0 and the encoding ends at the
/// offset of the position after the last character.
pub proof fn lemma_byte_offset_ends(chars: Seq<char>)
    ensures
        byte_offset(chars, 0) == 0,
        byte_offset(chars, chars.len() as int) == encode_utf8(chars).len(),
        chars.len() <= encode_utf8(chars).len(),
{
    assert(chars.take(chars.len() as int) == chars);
    lemma_byte_offset_monotonic(chars, 0, chars.len() as int);
}

/// The bytes of the character with index `k` are the bytes of the encoded
/// text from the character's byte offset to that of the next character.
pub proof fn lemma_char_bytes(chars: Seq<char>, k: int)
    requires
        0 <= k < chars.len(),
    ensures
        byte_offset(chars, k + 1) <= encode_utf8(chars).len(),
        encode_utf8(chars).subrange(
            byte_offset(chars, k) as int,
            byte_offset(chars, k + 1) as int,
        ) == encode_scalar(chars[k] as u32),
{
    lemma_byte_offset_step(chars, k);
    lemma_encode_concat(chars.take(k + 1), chars.skip(k + 1));
    assert(chars.take(k + 1) + chars.skip(k + 1) == chars);
    assert(encode_utf8(chars).subrange(
        byte_offset(chars, k) as int,
        byte_offset(chars, k + 1) as int,
    ) =~= encode_scalar(chars[k] as u32));
}

/// The byte offset of a character is a character boundary of the encoded
/// text, and so is the length of the encoding.
pub proof fn lemma_byte_offset_is_boundary(chars: Seq<char>, k: int)
    requires
        0 <= k <= chars.len(),
    ensures
        is_char_boundary(encode_utf8(chars), byte_offset(chars, k) as int),
    decreases k,
{
    let bytes = encode_utf8(chars);
    encode_utf8_valid_utf8(chars);
    if k > 0 {
        let rest = chars.drop_first();
        encode_utf8_first_scalar(chars);
        assert(pop_first_scalar(bytes) =~= encode_utf8(rest));
        assert(chars.take(k) == seq![chars[0]] + rest.take(k - 1));
        lemma_encode_concat(seq![chars[0]], rest.take(k - 1));
        lemma_encode_single(chars[0]);
        lemma_byte_offset_is_boundary(rest, k - 1);
    }
}

/// The bytes of `text`. A text is stored as its encoding, which holds at
/// most `usize::MAX` bytes and at least one byte for each character: so
/// the characters of a text can be counted in a `usize`.
pub fn encoded(text: &str) -> (bytes: &[u8])
    ensures
        bytes@ == encode_utf8(text@),
        text@.len() <= bytes@.len() <= usize::MAX,
{
    let bytes = text.as_bytes();
    proof {
        lemma_byte_offset_ends(text@);
        assert(bytes@.len() == vstd::slice::spec_slice_len(bytes));
    }
    bytes
}

/// Number of bytes that `c` takes in UTF-8.
pub fn utf8_width(c: char) -> (w: usize)
    ensures
        w == char_width(c),
        1 <= w <= 4,
{
    let u: u32 = c as u32;
    if u < 0x80 {
        1
    } else if u < 0x800 {
        2
    } else if u < 0x10000 {
        3
    } else {
        4
    }
}

} // verus!
