//! The encoding of the keys and values of a query string,
//! `application/x-www-form-urlencoded`: what the url crate writes for a pair
//! that is appended to a query.

use vstd::prelude::*;
use vstd::utf8::{encode_utf8, is_ascii_chars_encode_utf8};

verus! {

/// Whether the encoding leaves `byte` as it is: the ASCII letters and
/// digits, and `*`, `-`, `.` and `_`.
pub open spec fn kept(byte: u8) -> bool {
    ||| byte == 0x2a
    ||| byte == 0x2d
    ||| byte == 0x2e
    ||| 0x30 <= byte <= 0x39
    ||| 0x41 <= byte <= 0x5a
    ||| byte == 0x5f
    ||| 0x61 <= byte <= 0x7a
}

/// The hexadecimal digit for `value`, with the letters in upper case.
pub open spec fn hex_digit(value: int) -> char {
    if value < 10 {
        (0x30 + value) as char
    } else {
        (0x41 + value - 10) as char
    }
}

/// What one byte becomes: itself where it is kept, `+` for a space, and
/// else `%` with the byte's two hexadecimal digits.
pub open spec fn encoded_byte(byte: u8) -> Seq<char> {
    if kept(byte) {
        seq![byte as char]
    } else if byte == 0x20 {
        seq!['+']
    } else {
        seq!['%', hex_digit(byte as int / 16), hex_digit(byte as int % 16)]
    }
}

/// What a sequence of bytes becomes: each byte encoded, in order.
pub open spec fn encoded_bytes(bytes: Seq<u8>) -> Seq<char>
    decreases bytes.len(),
{
    if bytes.len() == 0 {
        Seq::empty()
    } else {
        encoded_bytes(bytes.drop_last()) + encoded_byte(bytes.last())
    }
}

/// The encoded form of `text`: the encoding of its bytes in UTF-8.
pub open spec fn encoded(text: Seq<char>) -> Seq<char> {
    encoded_bytes(encode_utf8(text))
}

/// Whether `c` can stand in an encoded text: a character that is kept, `+`
/// or `%`.
pub open spec fn harmless(c: char) -> bool {
    c == '+' || c == '%' || (c as u32 <= 0x7f && kept(c as u8))
}

/// An encoded byte holds harmless characters only, and at most three.
pub proof fn lemma_encoded_byte(byte: u8)
    ensures
        1 <= encoded_byte(byte).len() <= 3,
        forall|i: int| 0 <= i < encoded_byte(byte).len() ==> harmless(#[trigger] encoded_byte(byte)[i]),
{
    let high = byte as int / 16;
    let low = byte as int % 16;
    assert(0 <= high < 16 && 0 <= low < 16);
    assert(harmless(hex_digit(high)));
    assert(harmless(hex_digit(low)));
}

/// The encoding is at most three times as long as what it encodes.
pub proof fn lemma_encoded_len(bytes: Seq<u8>)
    ensures
        encoded_bytes(bytes).len() <= 3 * bytes.len(),
    decreases bytes.len(),
{
    if bytes.len() > 0 {
        lemma_encoded_len(bytes.drop_last());
        lemma_encoded_byte(bytes.last());
    }
}

/// Whatever bytes are encoded, the encoding holds harmless characters only.
pub proof fn lemma_encoded_bytes_harmless(bytes: Seq<u8>)
    ensures
        forall|i: int| 0 <= i < encoded_bytes(bytes).len() ==> harmless(#[trigger] encoded_bytes(bytes)[i]),
    decreases bytes.len(),
{
    if bytes.len() > 0 {
        lemma_encoded_bytes_harmless(bytes.drop_last());
        lemma_encoded_byte(bytes.last());
        let front = encoded_bytes(bytes.drop_last());
        let back = encoded_byte(bytes.last());
        assert forall|i: int| 0 <= i < encoded_bytes(bytes).len() implies harmless(
            #[trigger] encoded_bytes(bytes)[i],
        ) by {
            if i < front.len() {
                assert(encoded_bytes(bytes)[i] == front[i]);
            } else {
                assert(encoded_bytes(bytes)[i] == back[i - front.len()]);
            }
        }
    }
}

/// Whether every character of `text` is one that the encoding keeps.
pub open spec fn all_kept(text: Seq<char>) -> bool {
    forall|i: int| 0 <= i < text.len() ==> (#[trigger] text[i]) as u32 <= 0x7f && kept(text[i] as u8)
}

/// Bytes that are all kept are encoded as the characters that they are.
proof fn lemma_encoded_bytes_kept(bytes: Seq<u8>)
    requires
        forall|i: int| 0 <= i < bytes.len() ==> kept(#[trigger] bytes[i]),
    ensures
        encoded_bytes(bytes) == Seq::new(bytes.len(), |i: int| bytes[i] as char),
    decreases bytes.len(),
{
    if bytes.len() > 0 {
        let front = bytes.drop_last();
        lemma_encoded_bytes_kept(front);
        assert(encoded_bytes(bytes) =~= Seq::new(bytes.len(), |i: int| bytes[i] as char));
    } else {
        assert(encoded_bytes(bytes) =~= Seq::new(bytes.len(), |i: int| bytes[i] as char));
    }
}

/// A character is in ASCII by its code as it is by its place among the
/// characters.
proof fn lemma_ascii_order(c: char)
    ensures
        ('\0' <= c <= '\u{7f}') == (c as u32 <= 0x7f),
{
}

/// A text of kept characters is its own encoded form.
pub proof fn lemma_encoded_kept(text: Seq<char>)
    requires
        all_kept(text),
    ensures
        encoded(text) == text,
{
    assert forall|i: int| 0 <= i < text.len() implies '\0' <= #[trigger] text[i] <= '\u{7f}' by {
        lemma_ascii_order(text[i]);
    }
    is_ascii_chars_encode_utf8(text);
    let bytes = encode_utf8(text);
    assert forall|i: int| 0 <= i < bytes.len() implies kept(#[trigger] bytes[i]) by {
        assert(bytes[i] == text[i] as u8);
    }
    lemma_encoded_bytes_kept(bytes);
    assert(encoded(text) =~= text);
}

/// Whatever a text holds, its encoded form holds none of the characters
/// that mean something in an address: every character of it is an ASCII
/// letter or digit or one of `*`, `-`, `.`, `_`, `+` and `%`.
pub proof fn lemma_encoded_harmless(text: Seq<char>)
    ensures
        forall|i: int| 0 <= i < encoded(text).len() ==> harmless(#[trigger] encoded(text)[i]),
{
    lemma_encoded_bytes_harmless(encode_utf8(text));
}

} // verus!
