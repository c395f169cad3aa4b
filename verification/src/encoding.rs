//! Facts about the UTF-8 encoding that relate byte positions in a string to
//! its characters.

use vstd::prelude::*;
use vstd::utf8::*;

verus! {

/// Whether `c` is an ASCII character.
pub open spec fn is_ascii_char(c: char) -> bool {
    c <= '\u{7f}'
}

/// An ASCII character is encoded as the single byte of its own value.
pub proof fn lemma_encode_ascii_char(c: char)
    requires
        is_ascii_char(c),
    ensures
        encode_scalar(c as u32) == seq![c as u8],
{
    let v = c as u32;
    assert((v & 0x7f) as u8 == v as u8) by (bit_vector)
        requires
            v <= 0x7f,
    ;
}

/// Encoding distributes over concatenation.
pub proof fn lemma_encode_concat(a: Seq<char>, b: Seq<char>)
    ensures
        encode_utf8(a + b) == encode_utf8(a) + encode_utf8(b),
    decreases a.len(),
{
    if a.len() == 0 {
        assert(a + b == b);
    } else {
        lemma_encode_concat(a.drop_first(), b);
        assert((a + b).drop_first() == a.drop_first() + b);
    }
}

/// Two texts with the same encoding are the same text.
pub proof fn lemma_encode_injective(a: Seq<char>, b: Seq<char>)
    requires
        encode_utf8(a) == encode_utf8(b),
    ensures
        a == b,
{
    encode_utf8_decode_utf8(a);
    encode_utf8_decode_utf8(b);
}

/// The byte of an ASCII character that occurs in a text occurs in the encoding.
pub proof fn lemma_ascii_char_occurs(a: Seq<char>, i: int) -> (k: int)
    requires
        0 <= i < a.len(),
        is_ascii_char(a[i]),
    ensures
        0 <= k < encode_utf8(a).len(),
        encode_utf8(a)[k] == a[i] as u8,
{
    lemma_encode_concat(a.take(i), a.skip(i));
    assert(a == a.take(i) + a.skip(i));
    lemma_encode_ascii_char(a[i]);
    assert(a.skip(i)[0] == a[i]);
    encode_utf8(a.take(i)).len() as int
}

/// A character with the value of an ASCII byte is the character of that byte.
proof fn lemma_char_of_byte(c: char, b: u8)
    requires
        c as u32 == b as u32,
        b <= 0x7f,
    ensures
        is_ascii_char(c),
        c as u8 == b,
        c == b as char,
{
}

/// An ASCII character is the character of its own byte.
pub proof fn lemma_char_byte_char(c: char)
    requires
        is_ascii_char(c),
    ensures
        (c as u8) as char == c,
{
}

/// A text whose encoding starts with an ASCII byte starts with that character.
pub proof fn lemma_starts_with_ascii(a: Seq<char>)
    requires
        encode_utf8(a).len() > 0,
        encode_utf8(a)[0] <= 0x7f,
    ensures
        a.len() > 0,
        is_ascii_char(a[0]),
        a[0] as u8 == encode_utf8(a)[0],
        a[0] == encode_utf8(a)[0] as char,
        encode_utf8(a) == seq![encode_utf8(a)[0]] + encode_utf8(a.drop_first()),
{
    encode_utf8_first_scalar(a);
    let b = encode_utf8(a)[0];
    assert((b & 0x7f) == b) by (bit_vector)
        requires
            b <= 0x7f,
    ;
    assert(decode_first_scalar(encode_utf8(a)) == codepoint_width_1(b));
    lemma_char_of_byte(a[0], b);
    lemma_encode_ascii_char(a[0]);
}

/// Cutting an encoded text at a character boundary cuts the text: the two
/// pieces are encodings, and decoding them gives the text back.
pub proof fn lemma_cut(a: Seq<char>, k: int)
    requires
        is_char_boundary(encode_utf8(a), k),
    ensures
        0 <= k <= encode_utf8(a).len(),
        encode_utf8(decode_utf8(encode_utf8(a).subrange(0, k))) == encode_utf8(a).subrange(0, k),
        encode_utf8(decode_utf8(encode_utf8(a).subrange(k, encode_utf8(a).len() as int)))
            == encode_utf8(a).subrange(k, encode_utf8(a).len() as int),
        decode_utf8(encode_utf8(a).subrange(0, k)) + decode_utf8(
            encode_utf8(a).subrange(k, encode_utf8(a).len() as int),
        ) == a,
{
    let b = encode_utf8(a);
    encode_utf8_valid_utf8(a);
    lemma_boundary_in_range(b, k);
    valid_utf8_split(b, k);
    decode_utf8_encode_utf8(b.subrange(0, k));
    decode_utf8_encode_utf8(b.subrange(k, b.len() as int));
    decode_utf8_split(b, k);
    encode_utf8_decode_utf8(a);
}

/// A character boundary lies within the bytes.
pub proof fn lemma_boundary_in_range(b: Seq<u8>, k: int)
    requires
        valid_utf8(b),
        is_char_boundary(b, k),
    ensures
        0 <= k <= b.len(),
{
}

/// The position of an ASCII byte is a character boundary.
pub proof fn lemma_ascii_byte_is_boundary(a: Seq<char>, k: int)
    requires
        0 <= k < encode_utf8(a).len(),
        encode_utf8(a)[k] <= 0x7f,
    ensures
        is_char_boundary(encode_utf8(a), k),
{
    encode_utf8_valid_utf8(a);
    is_char_boundary_iff_not_is_continuation_byte(encode_utf8(a), k);
}

/// The two pieces of a text that are encoded by the bytes before and from
/// position `k` make up the text.
pub proof fn lemma_cut_is(a: Seq<char>, head: Seq<char>, tail: Seq<char>, k: int)
    requires
        0 <= k <= encode_utf8(a).len(),
        encode_utf8(head) == encode_utf8(a).subrange(0, k),
        encode_utf8(tail) == encode_utf8(a).subrange(k, encode_utf8(a).len() as int),
    ensures
        a == head + tail,
{
    lemma_encode_concat(head, tail);
    assert(encode_utf8(a) == encode_utf8(head) + encode_utf8(tail));
    lemma_encode_injective(a, head + tail);
}

/// The position after a first byte that is ASCII is a character boundary.
pub proof fn lemma_boundary_after_ascii(a: Seq<char>)
    requires
        encode_utf8(a).len() > 0,
        encode_utf8(a)[0] <= 0x7f,
    ensures
        is_char_boundary(encode_utf8(a), 1),
{
    encode_utf8_valid_utf8(a);
    reveal_with_fuel(is_char_boundary, 2);
}

/// The start and the end of an encoded text are character boundaries.
pub proof fn lemma_end_is_boundary(a: Seq<char>)
    ensures
        is_char_boundary(encode_utf8(a), 0),
        is_char_boundary(encode_utf8(a), encode_utf8(a).len() as int),
{
    encode_utf8_valid_utf8(a);
    is_char_boundary_start_end_of_seq(encode_utf8(a));
}

/// The place where two texts meet is a character boundary.
pub proof fn lemma_boundary_between(a: Seq<char>, b: Seq<char>)
    ensures
        is_char_boundary(encode_utf8(a + b), encode_utf8(a).len() as int),
{
    lemma_encode_concat(a, b);
    lemma_end_is_boundary(a + b);
    lemma_end_is_boundary(b);
    encode_utf8_valid_utf8(a + b);
    encode_utf8_valid_utf8(b);
    let k = encode_utf8(a).len() as int;
    if k < encode_utf8(a + b).len() {
        assert(encode_utf8(a + b)[k] == encode_utf8(b)[0]);
        is_char_boundary_iff_not_is_continuation_byte(encode_utf8(b), 0);
        is_char_boundary_iff_not_is_continuation_byte(encode_utf8(a + b), k);
    }
}

} // verus!
