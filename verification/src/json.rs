//! Reading JSON text: the members of an object, the elements of an array,
//! and the scalars that the gateway's payloads hold.

use crate::text::{pairs_view, same_text, texts_view};
use vstd::prelude::*;

verus! {

/// Whether `c` is one of the four characters that JSON passes over between
/// its values.
pub open spec fn blank(c: char) -> bool {
    c == ' ' || c == '\n' || c == '\t' || c == '\r'
}

/// Whether `text`, the blanks at its two ends aside, begins with `open` and
/// ends with `close`.
pub open spec fn framed(text: Seq<char>, open: char, close: char) -> bool {
    &&& exists|i: int|
        0 <= i < text.len() && #[trigger] text[i] == open && forall|j: int|
            0 <= j < i ==> blank(#[trigger] text[j])
    &&& exists|i: int|
        0 <= i < text.len() && #[trigger] text[i] == close && forall|j: int|
            i < j < text.len() ==> blank(#[trigger] text[j])
}

/// The members of the JSON object that `serde_json::from_str` reads from
/// `text`, each as its key and the JSON text of its value; `None` where
/// `text` is not one JSON object.
pub uninterp spec fn json_members(text: Seq<char>) -> Option<Seq<(Seq<char>, Seq<char>)>>;

/// The elements of the JSON array that `serde_json::from_str` reads from
/// `text`, each as JSON text; `None` where `text` is not one JSON array.
pub uninterp spec fn json_elements(text: Seq<char>) -> Option<Seq<Seq<char>>>;

/// The integer that `serde_json::from_str` reads from `text` as an `i32`;
/// `None` where `text` is not one JSON integer of that range.
pub uninterp spec fn json_integer(text: Seq<char>) -> Option<i32>;

/// The content of the JSON string that `serde_json::from_str` reads from
/// `text`; `None` where `text` is not one JSON string.
pub uninterp spec fn json_string(text: Seq<char>) -> Option<Seq<char>>;

/// The content of the JSON string that `serde_json::from_str` reads from
/// `text`, or `Some(None)` for JSON's `null`; `None` where `text` is neither.
pub uninterp spec fn json_optional_string(text: Seq<char>) -> Option<Option<Seq<char>>>;

/// The decimal text in which `serde_json` writes the JSON number that
/// `serde_json::from_str` reads from `text`; `None` where `text` is not one
/// JSON number.
pub uninterp spec fn json_number(text: Seq<char>) -> Option<Seq<char>>;

/// Reads `text` with `serde_json::from_str` as a `serde_json::Map` and hands
/// out each member as its key and the text that `to_string` gives for its
/// value. The list is the one that `json_members` names. Of the text it is
/// claimed that one that was read is framed by braces: the reader refuses a
/// text whose first character behind the blanks is not `{`, takes `}` as
/// the end of the object and refuses whatever but blanks follows it.
#[verifier::external_body]
fn parse_members(text: &str) -> (members: Option<Vec<(String, String)>>)
    ensures
        match members {
            Some(list) => json_members(text@) == Some(pairs_view(list@)),
            None => json_members(text@) is None,
        },
        members is Some ==> framed(text@, '{', '}'),
{
    match serde_json::from_str::<serde_json::Map<String, serde_json::Value>>(text) {
        Ok(map) => Some(map.into_iter().map(|(key, value)| (key, value.to_string())).collect()),
        Err(_) => None,
    }
}

/// Reads `text` with `serde_json::from_str` as a list of `serde_json::Value`
/// and hands out each element as the text that `to_string` gives for it.
/// The list is the one that `json_elements` names. Of the text it is claimed
/// that one that was read is framed by square brackets: the reader refuses a
/// text whose first character behind the blanks is not `[`, takes `]` as
/// the end of the array and refuses whatever but blanks follows it.
#[verifier::external_body]
fn parse_elements(text: &str) -> (elements: Option<Vec<String>>)
    ensures
        match elements {
            Some(list) => json_elements(text@) == Some(texts_view(list@)),
            None => json_elements(text@) is None,
        },
        elements is Some ==> framed(text@, '[', ']'),
{
    match serde_json::from_str::<Vec<serde_json::Value>>(text) {
        Ok(values) => Some(values.into_iter().map(|value| value.to_string()).collect()),
        Err(_) => None,
    }
}

/// Reads `text` with `serde_json::from_str` as an `i32`. Nothing is claimed
/// of the number but that it is the one `json_integer` names.
#[verifier::external_body]
fn parse_integer(text: &str) -> (number: Option<i32>)
    ensures
        number == json_integer(text@),
{
    match serde_json::from_str::<i32>(text) {
        Ok(number) => Some(number),
        Err(_) => None,
    }
}

/// Reads `text` with `serde_json::from_str` as a `String`. Nothing is
/// claimed of the content but that it is the one `json_string` names.
#[verifier::external_body]
fn parse_string(text: &str) -> (content: Option<String>)
    ensures
        match content {
            Some(inner) => json_string(text@) == Some(inner@),
            None => json_string(text@) is None,
        },
{
    match serde_json::from_str::<String>(text) {
        Ok(content) => Some(content),
        Err(_) => None,
    }
}

/// Reads `text` with `serde_json::from_str` as an `Option<String>`. Nothing
/// is claimed of the content but that it is the one `json_optional_string`
/// names.
#[verifier::external_body]
fn parse_optional_string(text: &str) -> (content: Option<Option<String>>)
    ensures
        match content {
            Some(Some(inner)) => json_optional_string(text@) == Some(Some(inner@)),
            Some(None) => json_optional_string(text@) == Some(None::<Seq<char>>),
            None => json_optional_string(text@) is None,
        },
{
    match serde_json::from_str::<Option<String>>(text) {
        Ok(content) => Some(content),
        Err(_) => None,
    }
}

/// Reads `text` with `serde_json::from_str` as a `serde_json::Number` and
/// returns the text that `to_string` gives for it. Nothing is claimed of
/// that text but that it is the one `json_number` names.
#[verifier::external_body]
fn parse_number(text: &str) -> (decimal: Option<String>)
    ensures
        match decimal {
            Some(digits) => json_number(text@) == Some(digits@),
            None => json_number(text@) is None,
        },
{
    match serde_json::from_str::<serde_json::Number>(text) {
        Ok(number) => Some(number.to_string()),
        Err(_) => None,
    }
}

/// The members of the JSON object that `text` is: those that `json_members`
/// names, and none where `text` is not framed by braces.
pub open spec fn object_members(text: Seq<char>) -> Option<Seq<(Seq<char>, Seq<char>)>> {
    if framed(text, '{', '}') {
        json_members(text)
    } else {
        None
    }
}

/// The elements of the JSON array that `text` is: those that `json_elements`
/// names, and none where `text` is not framed by square brackets.
pub open spec fn array_elements(text: Seq<char>) -> Option<Seq<Seq<char>>> {
    if framed(text, '[', ']') {
        json_elements(text)
    } else {
        None
    }
}

/// A text whose last character is neither a blank nor `close` is not framed
/// by `close`, whatever it begins with.
pub proof fn lemma_unframed(text: Seq<char>, open: char, close: char)
    requires
        text.len() > 0,
        !blank(text.last()),
        text.last() != close,
    ensures
        !framed(text, open, close),
{
    assert forall|i: int| 0 <= i < text.len() && #[trigger] text[i] == close implies !(forall|
        j: int,
    |
        i < j < text.len() ==> blank(#[trigger] text[j])) by {
        assert(i < text.len() - 1);
        assert(!blank(text[text.len() - 1]));
    }
}

/// Reads `text` as one JSON object and hands out its members, each as its
/// key and the JSON text of its value.
pub fn members_of(text: &str) -> (members: Option<Vec<(String, String)>>)
    ensures
        match members {
            Some(list) => object_members(text@) == Some(pairs_view(list@)),
            None => object_members(text@) is None,
        },
{
    parse_members(text)
}

/// Reads `text` as one JSON array and hands out its elements, each as JSON
/// text.
pub fn elements_of(text: &str) -> (elements: Option<Vec<String>>)
    ensures
        match elements {
            Some(list) => array_elements(text@) == Some(texts_view(list@)),
            None => array_elements(text@) is None,
        },
{
    parse_elements(text)
}

/// The value text of the first member of `members` whose key is `key`.
pub open spec fn member(members: Seq<(Seq<char>, Seq<char>)>, key: Seq<char>) -> Option<
    Seq<char>,
>
    decreases members.len(),
{
    if members.len() == 0 {
        None
    } else if members[0].0 == key {
        Some(members[0].1)
    } else {
        member(members.drop_first(), key)
    }
}

/// Where `member` finds a value, a member with that key and value exists and
/// no member before it has the key; where it finds none, no member has the
/// key.
pub proof fn lemma_member(members: Seq<(Seq<char>, Seq<char>)>, key: Seq<char>)
    ensures
        match member(members, key) {
            Some(value) => exists|i: int|
                {
                    &&& 0 <= i < members.len()
                    &&& #[trigger] members[i] == (key, value)
                    &&& forall|j: int| 0 <= j < i ==> (#[trigger] members[j]).0 != key
                },
            None => forall|i: int| 0 <= i < members.len() ==> (#[trigger] members[i]).0 != key,
        },
    decreases members.len(),
{
    if members.len() == 0 {
    } else if members[0].0 == key {
        assert(members[0] == (key, members[0].1));
    } else {
        let rest = members.drop_first();
        lemma_member(rest, key);
        assert(forall|i: int| 0 <= i < rest.len() ==> rest[i] == members[i + 1]);
        match member(rest, key) {
            Some(value) => {
                let i = choose|i: int|
                    {
                        &&& 0 <= i < rest.len()
                        &&& #[trigger] rest[i] == (key, value)
                        &&& forall|j: int| 0 <= j < i ==> (#[trigger] rest[j]).0 != key
                    };
                assert(members[i + 1] == (key, value));
                assert forall|j: int| 0 <= j < i + 1 implies (#[trigger] members[j]).0 != key by {
                    if j > 0 {
                        assert(rest[j - 1] == members[j]);
                    }
                }
            },
            None => {
                assert forall|i: int| 0 <= i < members.len() implies (#[trigger] members[i]).0
                    != key by {
                    if i > 0 {
                        assert(rest[i - 1] == members[i]);
                    }
                }
            },
        }
    }
}

/// Looks `key` up among `members`: the value text of the first member that
/// has it.
pub fn find_member<'a>(members: &'a Vec<(String, String)>, key: &str) -> (value: Option<&'a str>)
    ensures
        match value {
            Some(text) => member(pairs_view(members@), key@) == Some(text@),
            None => member(pairs_view(members@), key@) is None,
        },
{
    let ghost all = pairs_view(members@);
    let mut i: usize = 0;
    assert(all.skip(0) == all);
    while i < members.len()
        invariant
            all == pairs_view(members@),
            i <= members@.len(),
            member(all, key@) == member(all.skip(i as int), key@),
        decreases members@.len() - i,
    {
        let pair = &members[i];
        proof {
            assert(all.skip(i as int)[0] == (pair.0@, pair.1@));
            assert(all.skip(i as int).drop_first() == all.skip(i + 1));
        }
        if same_text(pair.0.as_str(), key) {
            return Some(pair.1.as_str());
        }
        i += 1;
    }
    None
}

/// The integer under `key`: what `json_integer` reads from the member's
/// value. A missing member gives none.
pub open spec fn integer_field(members: Seq<(Seq<char>, Seq<char>)>, key: Seq<char>) -> Option<
    i32,
> {
    match member(members, key) {
        Some(value) => json_integer(value),
        None => None,
    }
}

/// The string under `key`: what `json_string` reads from the member's
/// value. A missing member gives none.
pub open spec fn string_field(members: Seq<(Seq<char>, Seq<char>)>, key: Seq<char>) -> Option<
    Seq<char>,
> {
    match member(members, key) {
        Some(value) => json_string(value),
        None => None,
    }
}

/// The number under `key`, as decimal text: what `json_number` reads from
/// the member's value. A missing member gives none.
pub open spec fn number_field(members: Seq<(Seq<char>, Seq<char>)>, key: Seq<char>) -> Option<
    Seq<char>,
> {
    match member(members, key) {
        Some(value) => json_number(value),
        None => None,
    }
}

/// The string under `key` where it may be left out: a missing member is an
/// absent string, a present one is read by `json_optional_string`.
pub open spec fn optional_string_field(
    members: Seq<(Seq<char>, Seq<char>)>,
    key: Seq<char>,
) -> Option<Option<Seq<char>>> {
    match member(members, key) {
        Some(value) => json_optional_string(value),
        None => Some(None),
    }
}

/// Reads the integer under `key`.
pub fn read_integer(members: &Vec<(String, String)>, key: &str) -> (number: Option<i32>)
    ensures
        number == integer_field(pairs_view(members@), key@),
{
    match find_member(members, key) {
        Some(value) => parse_integer(value),
        None => None,
    }
}

/// Reads the string under `key`.
pub fn read_string(members: &Vec<(String, String)>, key: &str) -> (content: Option<String>)
    ensures
        match content {
            Some(inner) => string_field(pairs_view(members@), key@) == Some(inner@),
            None => string_field(pairs_view(members@), key@) is None,
        },
{
    match find_member(members, key) {
        Some(value) => parse_string(value),
        None => None,
    }
}

/// Reads the number under `key` as decimal text.
pub fn read_number(members: &Vec<(String, String)>, key: &str) -> (decimal: Option<String>)
    ensures
        match decimal {
            Some(digits) => number_field(pairs_view(members@), key@) == Some(digits@),
            None => number_field(pairs_view(members@), key@) is None,
        },
{
    match find_member(members, key) {
        Some(value) => parse_number(value),
        None => None,
    }
}

/// Reads the string under `key` where it may be left out.
pub fn read_optional_string(members: &Vec<(String, String)>, key: &str) -> (content: Option<
    Option<String>,
>)
    ensures
        match content {
            Some(Some(inner)) => optional_string_field(pairs_view(members@), key@) == Some(
                Some(inner@),
            ),
            Some(None) => optional_string_field(pairs_view(members@), key@) == Some(
                None::<Seq<char>>,
            ),
            None => optional_string_field(pairs_view(members@), key@) is None,
        },
{
    match find_member(members, key) {
        Some(value) => parse_optional_string(value),
        None => Some(None),
    }
}

} // verus!
