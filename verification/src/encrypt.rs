//! The codec that obscures stored credentials: a shifting substitution on
//! the printable ASCII characters, undone by the same shifts backwards.
//!
//! It hides a password from a glance at a file. It is no cipher.

use crate::text::{chars_of, text_of};
use vstd::prelude::*;

verus! {

/// The first printable character, the space.
pub const FIRST: u32 = 0x20;

/// The number of printable characters, from the space to the tilde.
pub const SPAN: u32 = 95;

/// The shift of the first character.
pub const SEED: u32 = 47;

/// By how much the shift grows from one character to the next.
pub const STEP: u32 = 7;

/// Whether `c` is one of the characters that the codec moves.
pub open spec fn printable(c: char) -> bool {
    FIRST <= c as u32 && (c as u32) < FIRST + SPAN
}

/// The shift that encrypting applies at `index`, in `0..SPAN`.
pub open spec fn shift_at(index: int) -> int {
    (SEED + (index % SPAN as int) * STEP) % SPAN as int
}

/// `c` moved `by` places forward among the printable characters, wrapping
/// round at the tilde. Other characters stay.
pub open spec fn turned(c: char, by: int) -> char {
    if printable(c) {
        (FIRST + (c as u32 - FIRST + by) % SPAN as int) as char
    } else {
        c
    }
}

/// How far the character at `index` moves: forward by the shift to encrypt,
/// and by what is left of the round to decrypt.
pub open spec fn turn(decrypt: bool, index: int) -> int {
    if decrypt {
        SPAN - shift_at(index)
    } else {
        shift_at(index)
    }
}

/// The text that `source` becomes: each character moved by the turn of its
/// index.
pub open spec fn transformed(decrypt: bool, source: Seq<char>) -> Seq<char> {
    Seq::new(source.len(), |i: int| turned(source[i], turn(decrypt, i)))
}

/// A place moved forward by `by` and then by what is left of the round is
/// where it was.
proof fn lemma_wrap_back(place: int, by: int)
    requires
        0 <= place < 95,
        0 <= by <= 95,
    ensures
        0 <= (place + by) % 95 < 95,
        ((place + by) % 95 + (95 - by)) % 95 == place,
{
    if place + by < 95 {
        assert((place + by) % 95 == place + by);
        assert((place + 95) % 95 == place);
    } else {
        assert((place + by) % 95 == place + by - 95);
        assert(place % 95 == place);
    }
}

/// A printable character that is moved stays printable, at the place that
/// the move gives it.
proof fn lemma_turned_place(c: char, by: int)
    requires
        printable(c),
        0 <= by <= 95,
    ensures
        printable(turned(c, by)),
        turned(c, by) as u32 - FIRST == (c as u32 - FIRST + by) % 95,
{
    let place = c as u32 - FIRST;
    lemma_wrap_back(place, by);
    let code = FIRST + (place + by) % 95;
    assert(0x20 <= code < 0x7f);
    assert((code as char) as u32 == code);
}

/// Moving a character by a shift and then by what is left of the round
/// gives the character back, in either order.
pub proof fn lemma_turn_back(c: char, decrypt: bool, index: int)
    requires
        0 <= index,
    ensures
        turned(turned(c, turn(decrypt, index)), turn(!decrypt, index)) == c,
        printable(turned(c, turn(decrypt, index))) == printable(c),
{
    let there = turn(decrypt, index);
    let back = turn(!decrypt, index);
    assert(0 <= shift_at(index) < 95);
    assert(0 <= there <= 95 && back == 95 - there);
    if printable(c) {
        let place = c as u32 - FIRST;
        let moved = turned(c, there);
        lemma_turned_place(c, there);
        lemma_turned_place(moved, back);
        lemma_wrap_back(place, there);
        assert(turned(moved, back) as u32 == c as u32);
    }
}

/// Decrypting what was encrypted, and encrypting what was decrypted, gives
/// the text back: for every text and both directions.
pub proof fn lemma_round_trip(decrypt: bool, source: Seq<char>)
    ensures
        transformed(!decrypt, transformed(decrypt, source)) == source,
{
    let there = transformed(decrypt, source);
    let back = transformed(!decrypt, there);
    assert forall|i: int| 0 <= i < source.len() implies back[i] == source[i] by {
        lemma_turn_back(source[i], decrypt, i);
    }
    assert(back =~= source);
}

/// The codec keeps the length of a text and leaves every character that is
/// not printable ASCII where it is.
pub proof fn lemma_keeps_shape(decrypt: bool, source: Seq<char>)
    ensures
        transformed(decrypt, source).len() == source.len(),
        forall|i: int|
            0 <= i < source.len() && !printable(source[i]) ==> #[trigger] transformed(
                decrypt,
                source,
            )[i] == source[i],
{
}

/// Moves one character by `by` places.
fn turn_char(c: char, by: u32) -> (moved: char)
    requires
        by <= SPAN,
    ensures
        moved == turned(c, by as int),
{
    let code: u32 = c as u32;
    if FIRST <= code && code < FIRST + SPAN {
        let place: u32 = (code - FIRST + by) % SPAN;
        ((FIRST + place) as u8) as char
    } else {
        c
    }
}

/// Obscures `source`, or with `decrypt` restores what was obscured.
pub fn encrypt(decrypt: bool, source: &str) -> (output: String)
    ensures
        output@ == transformed(decrypt, source@),
{
    let chars = chars_of(source);
    let mut moved: Vec<char> = Vec::new();
    let mut i: usize = 0;
    while i < chars.len()
        invariant
            i <= chars@.len(),
            moved@.len() == i,
            forall|j: int| 0 <= j < i ==> moved@[j] == turned(chars@[j], turn(decrypt, j)),
        decreases chars@.len() - i,
    {
        let lap: u32 = (i % 95) as u32;
        let shift: u32 = (SEED + lap * STEP) % SPAN;
        assert(shift == shift_at(i as int));
        let by: u32 = if decrypt {
            SPAN - shift
        } else {
            shift
        };
        moved.push(turn_char(chars[i], by));
        i += 1;
    }
    assert(moved@ =~= transformed(decrypt, chars@));
    assert(moved@.subrange(0, moved@.len() as int) == moved@);
    text_of(&moved, 0, moved.len())
}

} // verus!
