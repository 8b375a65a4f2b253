//! Text as characters and as the bytes that encode it: the contracts of
//! the `String` methods the library edits text with, numbers in decimal,
//! and cutting a text at byte offsets.

use vstd::prelude::*;
use vstd::utf8::{
    char_u32_cast, decode_utf8, decode_utf8_split, encode_scalar, encode_utf8,
    encode_utf8_decode_utf8, encode_utf8_valid_utf8, has_width_1_encoding, is_char_boundary,
    is_char_boundary_iff_not_is_continuation_byte, is_char_boundary_start_end_of_seq, valid_utf8,
    valid_utf8_split,
};

verus! {

/// `String::push` appends exactly one character at the end.
pub assume_specification[ String::push ](s: &mut String, ch: char)
    ensures
        final(s)@ == old(s)@.push(ch),
;

/// `String::pop` removes and returns the last character, or returns `None`
/// and leaves an empty string as it is.
pub assume_specification[ String::pop ](s: &mut String) -> (r: Option<char>)
    ensures
        old(s)@.len() == 0 ==> r.is_none() && final(s)@ == old(s)@,
        old(s)@.len() > 0 ==> r == Some(old(s)@.last()) && final(s)@ == old(s)@.drop_last(),
;

/// `String::from_utf8`: succeeds exactly on well-formed UTF-8, and the
/// string then holds the characters those bytes encode.
#[verifier::external_body]
pub(crate) fn string_from_utf8(bytes: Vec<u8>) -> (decoded: Option<String>)
    ensures
        decoded is Some <==> valid_utf8(bytes@),
        decoded matches Some(text) ==> text@ == decode_utf8(bytes@),
{
    String::from_utf8(bytes).ok()
}

/// Encoding two pieces of text one after the other encodes their
/// concatenation.
pub proof fn lemma_encode_concat(first: Seq<char>, second: Seq<char>)
    ensures
        encode_utf8(first + second) == encode_utf8(first)
            + encode_utf8(second),
    decreases first.len(),
{
    if first.len() == 0 {
        assert(first + second =~= second);
        assert(encode_utf8(first) + encode_utf8(second)
            =~= encode_utf8(second));
    } else {
        lemma_encode_concat(first.drop_first(), second);
        assert((first + second).drop_first() =~= first.drop_first() + second);
        assert((first + second)[0] == first[0]);
        assert(encode_utf8(first + second) =~= encode_utf8(first)
            + encode_utf8(second));
    }
}

/// The character of one decimal digit.
pub open spec fn digit(d: nat) -> char
    recommends
        d < 10,
{
    ((48 + d) as u8) as char
}

/// A natural number in decimal, without padding.
pub open spec fn decimal_digits(n: nat) -> Seq<char>
    decreases n,
{
    if n < 10 {
        seq![digit(n)]
    } else {
        decimal_digits(n / 10).push(digit(n % 10))
    }
}

/// An integer in decimal, with a minus sign where it is negative.
pub open spec fn decimal_text(value: int) -> Seq<char> {
    if value < 0 {
        seq!['-'] + decimal_digits((-value) as nat)
    } else {
        decimal_digits(value as nat)
    }
}

/// Appends a number in decimal.
pub fn push_decimal(text: &mut String, n: u32)
    ensures
        final(text)@ == old(text)@ + decimal_digits(n as nat),
    decreases n,
{
    if n >= 10 {
        push_decimal(text, n / 10);
    }
    let d: u8 = (n % 10) as u8;
    let c: char = (48u8 + d) as char;
    text.push(c);
    assert(text@ =~= old(text)@ + decimal_digits(n as nat));
}

/// Writes an integer as `i32`'s own `to_string` does.
pub fn decimal(value: i32) -> (text: String)
    ensures
        text@ == decimal_text(value as int),
{
    let mut text = String::new();
    if value < 0 {
        text.push('-');
        let magnitude: u32 = if value == i32::MIN {
            2147483648u32
        } else {
            (-value) as u32
        };
        push_decimal(&mut text, magnitude);
        assert(text@ =~= decimal_text(value as int));
    } else {
        push_decimal(&mut text, value as u32);
        assert(text@ =~= decimal_text(value as int));
    }
    text
}

/// The characters that the bytes `from..to` of a text encode.
pub open spec fn segment(text: Seq<char>, from: int, to: int) -> Seq<char> {
    decode_utf8(encode_utf8(text).subrange(from, to))
}

/// Whether a byte offset into a text lies between two characters, or at
/// one of its ends.
pub open spec fn on_boundary(text: Seq<char>, offset: int) -> bool {
    is_char_boundary(encode_utf8(text), offset)
}

/// A boundary of the whole is a boundary of every part that ends on a
/// boundary and holds it.
pub proof fn lemma_boundary_in_prefix(bytes: Seq<u8>, index: int, end: int)
    requires
        valid_utf8(bytes),
        0 <= index <= end <= bytes.len(),
        is_char_boundary(bytes, index),
        is_char_boundary(bytes, end),
    ensures
        valid_utf8(bytes.subrange(0, end)),
        is_char_boundary(bytes.subrange(0, end), index),
{
    let head = bytes.subrange(0, end);
    valid_utf8_split(bytes, end);
    if index == end {
        is_char_boundary_start_end_of_seq(head);
    } else {
        is_char_boundary_iff_not_is_continuation_byte(bytes, index);
        is_char_boundary_iff_not_is_continuation_byte(head, index);
    }
}

/// The part of a text between two byte offsets that lie on boundaries.
pub fn slice<'a>(text: &'a str, from: usize, to: usize) -> (part: &'a str)
    requires
        from <= to <= encode_utf8(text@).len(),
        on_boundary(text@, from as int),
        on_boundary(text@, to as int),
    ensures
        part@ == segment(text@, from as int, to as int),
{
    let ghost bytes = encode_utf8(text@);
    proof {
        encode_utf8_valid_utf8(text@);
        lemma_boundary_in_prefix(bytes, from as int, to as int);
    }
    let (head, _) = text.split_at(to);
    let (_, part) = head.split_at(from);
    proof {
        assert(encode_utf8(part@) =~= bytes.subrange(from as int, to as int));
        encode_utf8_decode_utf8(part@);
    }
    part
}

/// The length of a text in bytes.
pub fn byte_len(text: &str) -> (length: usize)
    ensures
        length == encode_utf8(text@).len(),
{
    text.as_bytes().len()
}

/// A character below 128 is encoded as the one byte with its number, and no
/// byte below 128 occurs in the encoding of any other character.
pub proof fn lemma_ascii_byte_in_scalar(c: char, byte: u8)
    requires
        byte < 0x80,
    ensures
        encode_scalar(c as u32).len() >= 1,
        encode_scalar(c as u32).contains(byte) <==> c as u32 == byte as u32,
        c as u32 == byte as u32 ==> encode_scalar(c as u32) == seq![byte],
{
    let s = c as u32;
    let bytes = encode_scalar(s);
    assert(forall|x: u8| 0x80u8 | x >= 0x80u8) by (bit_vector);
    assert(forall|x: u8| 0xC0u8 | x >= 0x80u8) by (bit_vector);
    assert(forall|x: u8| 0xE0u8 | x >= 0x80u8) by (bit_vector);
    assert(forall|x: u8| 0xF0u8 | x >= 0x80u8) by (bit_vector);
    if has_width_1_encoding(s) {
        assert(s & 0x7F == s) by (bit_vector)
            requires
                s <= 0x7F,
        ;
        assert(bytes =~= seq![s as u8]);
        if s == byte as u32 {
            assert(bytes[0] == byte);
        }
    } else {
        assert forall|i: int| 0 <= i < bytes.len() implies bytes[i] >= 0x80 by {}
    }
}

/// A character is the character of a byte exactly when it has the byte's
/// number.
pub proof fn lemma_char_of_byte(c: char, byte: u8)
    ensures
        c == byte as char <==> c as u32 == byte as u32,
{
    char_u32_cast(c, c as u32);
    char_u32_cast(byte as char, byte as u32);
}

/// A byte below 128 occurs in the encoding of a text exactly where the
/// character with that number occurs in the text.
pub proof fn lemma_ascii_byte_in_text(text: Seq<char>, byte: u8)
    requires
        byte < 0x80,
    ensures
        encode_utf8(text).contains(byte) <==> text.contains(byte as char),
    decreases text.len(),
{
    let bytes = encode_utf8(text);
    if text.len() == 0 {
    } else {
        let first = encode_scalar(text[0] as u32);
        let rest = encode_utf8(text.drop_first());
        lemma_ascii_byte_in_scalar(text[0], byte);
        lemma_ascii_byte_in_text(text.drop_first(), byte);
        lemma_char_of_byte(text[0], byte);
        if bytes.contains(byte) {
            let i = choose|i: int| 0 <= i < bytes.len() && bytes[i] == byte;
            if i < first.len() {
                assert(first[i] == byte);
                assert(text[0] == byte as char);
            } else {
                assert(rest[i - first.len()] == byte);
                let j = choose|j: int|
                    0 <= j < text.drop_first().len() && text.drop_first()[j] == byte as char;
                assert(text[j + 1] == byte as char);
            }
        }
        if text.contains(byte as char) {
            let j = choose|j: int| 0 <= j < text.len() && text[j] == byte as char;
            if j == 0 {
                assert(first[0] == byte);
                assert(bytes[0] == byte);
            } else {
                assert(text.drop_first()[j - 1] == byte as char);
                let i = choose|i: int| 0 <= i < rest.len() && rest[i] == byte;
                assert(bytes[first.len() + i] == byte);
            }
        }
    }
}

/// The encoding of a text that is not empty ends in a byte below 128
/// exactly where the text ends in the character with that number.
pub proof fn lemma_ascii_byte_ends_text(text: Seq<char>, byte: u8)
    requires
        byte < 0x80,
        text.len() > 0,
    ensures
        encode_utf8(text).len() > 0,
        encode_utf8(text).last() == byte <==> text.last() == byte as char,
{
    let front = text.drop_last();
    let end = seq![text.last()];
    assert(text =~= front + end);
    lemma_encode_concat(front, end);
    lemma_ascii_byte_in_scalar(text.last(), byte);
    let scalar = encode_scalar(text.last() as u32);
    assert(encode_utf8(end) =~= scalar) by {
        reveal_with_fuel(encode_utf8, 2);
        assert(end.drop_first() =~= Seq::<char>::empty());
    }
    lemma_char_of_byte(text.last(), byte);
    assert(encode_utf8(text).last() == scalar.last());
    if scalar.last() == byte {
        assert(scalar.contains(byte));
    }
}

/// A part of a text that starts and ends on boundaries is itself text, and
/// a boundary of the text inside it is a boundary of the part.
pub proof fn lemma_boundary_in_part(bytes: Seq<u8>, from: int, index: int, to: int)
    requires
        valid_utf8(bytes),
        0 <= from <= index <= to <= bytes.len(),
        is_char_boundary(bytes, from),
        is_char_boundary(bytes, index),
        is_char_boundary(bytes, to),
    ensures
        valid_utf8(bytes.subrange(from, to)),
        is_char_boundary(bytes.subrange(from, to), index - from),
{
    let head = bytes.subrange(0, to);
    let part = bytes.subrange(from, to);
    lemma_boundary_in_prefix(bytes, from, to);
    valid_utf8_split(head, from);
    assert(head.subrange(from, head.len() as int) =~= part);
    if index == to {
        is_char_boundary_start_end_of_seq(part);
    } else if index > from {
        is_char_boundary_iff_not_is_continuation_byte(bytes, index);
        is_char_boundary_iff_not_is_continuation_byte(part, index - from);
    }
}

/// Two parts of a text that meet on a boundary make up the part that spans
/// both.
pub proof fn lemma_segments_meet(text: Seq<char>, from: int, middle: int, to: int)
    requires
        0 <= from <= middle <= to <= encode_utf8(text).len(),
        on_boundary(text, from),
        on_boundary(text, middle),
        on_boundary(text, to),
    ensures
        segment(text, from, middle) + segment(text, middle, to) == segment(text, from, to),
{
    let bytes = encode_utf8(text);
    let part = bytes.subrange(from, to);
    encode_utf8_valid_utf8(text);
    lemma_boundary_in_part(bytes, from, middle, to);
    decode_utf8_split(part, middle - from);
    assert(part.subrange(0, middle - from) =~= bytes.subrange(from, middle));
    assert(part.subrange(middle - from, part.len() as int) =~= bytes.subrange(middle, to));
}

/// A part of a text between two different boundaries holds a character.
pub proof fn lemma_segment_not_empty(text: Seq<char>, from: int, to: int)
    requires
        0 <= from < to <= encode_utf8(text).len(),
        on_boundary(text, from),
        on_boundary(text, to),
    ensures
        segment(text, from, to).len() > 0,
{
    let bytes = encode_utf8(text);
    encode_utf8_valid_utf8(text);
    lemma_boundary_in_part(bytes, from, from, to);
}

/// The part that spans a whole text is the text.
pub proof fn lemma_whole_segment(text: Seq<char>)
    ensures
        segment(text, 0, encode_utf8(text).len() as int) == text,
        segment(text, 0, 0) == Seq::<char>::empty(),
{
    let bytes = encode_utf8(text);
    assert(bytes.subrange(0, bytes.len() as int) =~= bytes);
    encode_utf8_decode_utf8(text);
    assert(bytes.subrange(0, 0) =~= encode_utf8(Seq::<char>::empty()));
    encode_utf8_decode_utf8(Seq::<char>::empty());
}

} // verus!
