//! The wrapper that the gateway puts around every payload: the callback's
//! name, an opening parenthesis, the payload, a closing parenthesis.

use crate::text::{chars_of, occurs, occurs_at, text_of};
use vstd::prelude::*;

verus! {

/// What opens an envelope: the callback's name and an opening parenthesis.
pub open spec fn opening(callback: Seq<char>) -> Seq<char> {
    callback.push('(')
}

/// The least index at or after `from` at which `mark` stands in `body`.
pub open spec fn first_opening(body: Seq<char>, mark: Seq<char>, from: int) -> Option<int>
    decreases body.len() - from + 1,
{
    if from < 0 || from + mark.len() > body.len() {
        None
    } else if occurs_at(body, mark, from) {
        Some(from)
    } else {
        first_opening(body, mark, from + 1)
    }
}

/// The greatest index in `low..high` at which `body` holds a closing
/// parenthesis.
pub open spec fn last_closing(body: Seq<char>, low: int, high: int) -> Option<int>
    decreases high - low,
{
    if low < 0 || high <= low || high > body.len() {
        None
    } else if body[high - 1] == ')' {
        Some(high - 1)
    } else {
        last_closing(body, low, high - 1)
    }
}

/// Where the payload lies in `body`: from the character after the first
/// `mark` up to, and without, the last closing parenthesis behind it.
pub open spec fn bounds(body: Seq<char>, mark: Seq<char>) -> Option<(int, int)> {
    match first_opening(body, mark, 0) {
        Some(at) => match last_closing(body, at + mark.len(), body.len() as int) {
            Some(end) => Some((at + mark.len(), end)),
            None => None,
        },
        None => None,
    }
}

/// The payload of `body`; `body` itself where it has no envelope.
pub open spec fn payload(body: Seq<char>, callback: Seq<char>) -> Seq<char> {
    match bounds(body, opening(callback)) {
        Some((start, end)) => body.subrange(start, end),
        None => body,
    }
}

/// `first_opening` finds the mark, and the mark stands nowhere before it;
/// where it finds none, the mark stands nowhere at or after `from`.
pub proof fn lemma_first_opening(body: Seq<char>, mark: Seq<char>, from: int)
    requires
        0 <= from,
    ensures
        match first_opening(body, mark, from) {
            Some(at) => {
                &&& from <= at
                &&& occurs_at(body, mark, at)
                &&& forall|k: int| from <= k < at ==> !occurs_at(body, mark, k)
            },
            None => forall|k: int| from <= k ==> !occurs_at(body, mark, k),
        },
    decreases body.len() - from + 1,
{
    if from + mark.len() > body.len() {
    } else if occurs_at(body, mark, from) {
    } else {
        lemma_first_opening(body, mark, from + 1);
    }
}

/// `last_closing` finds a closing parenthesis in `low..high`, and none
/// stands behind it there; where it finds none, the range holds none.
pub proof fn lemma_last_closing(body: Seq<char>, low: int, high: int)
    requires
        0 <= low,
        high <= body.len(),
    ensures
        match last_closing(body, low, high) {
            Some(end) => {
                &&& low <= end < high
                &&& body[end] == ')'
                &&& forall|k: int| end < k < high ==> body[k] != ')'
            },
            None => forall|k: int| low <= k < high ==> body[k] != ')',
        },
    decreases high - low,
{
    if high <= low {
    } else if body[high - 1] == ')' {
    } else {
        lemma_last_closing(body, low, high - 1);
    }
}

/// A body in which the opening stands nowhere is its own payload: an answer
/// under another callback's name is handed on unchanged.
pub proof fn lemma_mismatch_keeps_body(body: Seq<char>, callback: Seq<char>)
    requires
        forall|k: int| !occurs_at(body, opening(callback), k),
    ensures
        payload(body, callback) == body,
{
    lemma_first_opening(body, opening(callback), 0);
}

/// What the gateway sends for a payload comes back as that payload: the
/// callback's name, `(`, the payload and `)` unwrap to the payload, whatever
/// the payload holds.
pub proof fn lemma_unwrap_wrapped(callback: Seq<char>, inner: Seq<char>)
    ensures
        payload(opening(callback) + inner + seq![')'], callback) == inner,
{
    let body = opening(callback) + inner + seq![')'];
    let start = callback.len() + 1;
    assert(body.subrange(0, start as int) == opening(callback));
    assert(occurs_at(body, opening(callback), 0));
    assert(body[body.len() - 1] == ')');
    assert(body.subrange(start as int, body.len() - 1) == inner);
}

/// Strips the envelope from `body`: the text between the first
/// `callback(` and the last `)` behind it, verbatim. A body without such an
/// envelope is returned as it is.
pub fn unwrap(body: &str, callback: &str) -> (inner: String)
    ensures
        inner@ == payload(body@, callback@),
{
    let text = chars_of(body);
    let mut mark = chars_of(callback);
    mark.push('(');
    match find_bounds(&text, &mark) {
        Some((start, end)) => text_of(&text, start, end),
        None => {
            assert(text@.subrange(0, text@.len() as int) == text@);
            text_of(&text, 0, text.len())
        },
    }
}

/// Finds where the payload lies in `text`.
fn find_bounds(text: &Vec<char>, mark: &Vec<char>) -> (found: Option<(usize, usize)>)
    requires
        mark@.len() >= 1,
    ensures
        match found {
            Some((start, end)) => {
                &&& start <= end < text@.len()
                &&& bounds(text@, mark@) == Some((start as int, end as int))
            },
            None => bounds(text@, mark@) is None,
        },
{
    if mark.len() > text.len() {
        return None;
    }
    let last: usize = text.len() - mark.len();
    let mut at: usize = 0;
    while at <= last && !occurs(text, mark, at)
        invariant
            mark@.len() >= 1,
            last + mark@.len() == text@.len() <= usize::MAX,
            at <= last + 1,
            first_opening(text@, mark@, 0) == first_opening(text@, mark@, at as int),
        decreases last + 1 - at,
    {
        at += 1;
    }
    if at > last {
        return None;
    }
    let start: usize = at + mark.len();
    let mut high: usize = text.len();
    while high > start && text[high - 1] != ')'
        invariant
            start <= high <= text@.len(),
            last_closing(text@, start as int, text@.len() as int) == last_closing(
                text@,
                start as int,
                high as int,
            ),
        decreases high - start,
    {
        high -= 1;
    }
    if high > start {
        Some((start, high - 1))
    } else {
        None
    }
}

} // verus!
