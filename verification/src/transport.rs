//! Requests to the gateway and the classification of what comes back.

use crate::envelope::{lemma_unwrap_wrapped, opening, payload, unwrap};
use crate::error::{bare, Error, ErrorView, Kind};
use crate::form::{encoded, lemma_encoded_len};
use crate::text::{occurs_at, pairs_view};
use vstd::prelude::*;
use vstd::utf8::encode_utf8;

verus! {

/// The address that every node path is joined to.
pub const ENTRANCE: &'static str = "http://192.168.1.91";

/// The name under which the gateway is asked to wrap its payloads.
pub const CALLBACK: &'static str = "ctbox";

/// The status with which the gateway answers a request that it accepted.
pub const STATUS_OK: u16 = 200;

/// The text of the address that `url::Url::parse` reads from `base` and
/// `url::Url::join` resolves `node` against; `None` where either refuses.
pub uninterp spec fn joined_address(base: Seq<char>, node: Seq<char>) -> Option<Seq<char>>;

/// The text of that address after `extend_pairs` has added `params` to its
/// query; `None` where `url::Url::parse` or `url::Url::join` refuses.
pub uninterp spec fn queried_address(
    base: Seq<char>,
    node: Seq<char>,
    params: Seq<(Seq<char>, Seq<char>)>,
) -> Option<Seq<char>>;

/// A pair as it stands in a query: the encoded key, `=` and the encoded
/// value.
pub open spec fn encoded_pair(pair: (Seq<char>, Seq<char>)) -> Seq<char> {
    encoded(pair.0) + seq!['='] + encoded(pair.1)
}

/// The pairs as they stand in a query: each in its encoded form, in the
/// order of the sequence, with `&` between one and the next.
pub open spec fn query_text(params: Seq<(Seq<char>, Seq<char>)>) -> Seq<char>
    decreases params.len(),
{
    if params.len() == 0 {
        Seq::empty()
    } else if params.len() == 1 {
        encoded_pair(params[0])
    } else {
        query_text(params.drop_last()) + seq!['&'] + encoded_pair(params.last())
    }
}

/// The most bytes that the pairs can take in a query: for each pair three
/// for every byte of its key and of its value in UTF-8, and two for its `=`
/// and for the `&` before it.
pub open spec fn query_room(params: Seq<(Seq<char>, Seq<char>)>) -> nat
    decreases params.len(),
{
    if params.len() == 0 {
        0
    } else {
        query_room(params.drop_last()) + 3 * encode_utf8(params.last().0).len() + 3 * encode_utf8(
            params.last().1,
        ).len() + 2
    }
}

/// Whether a text of `length` bytes, the `?` that begins a query and the
/// pairs stay within the 32 bits in which the url crate counts the bytes of
/// an address.
pub open spec fn within_count(length: nat, params: Seq<(Seq<char>, Seq<char>)>) -> bool {
    length + 1 + query_room(params) <= u32::MAX
}

/// Whether the pairs can be added to the query of an address whose text is
/// `before`.
pub open spec fn fits(before: Seq<char>, params: Seq<(Seq<char>, Seq<char>)>) -> bool {
    within_count(encode_utf8(before).len(), params)
}

/// `before` with `glue` and the pairs put in at `cut`.
pub open spec fn with_query_at(
    before: Seq<char>,
    cut: int,
    glue: Seq<char>,
    params: Seq<(Seq<char>, Seq<char>)>,
) -> Seq<char> {
    before.subrange(0, cut) + glue + query_text(params) + before.subrange(cut, before.len() as int)
}

/// Whether `after` is `before` with the pairs added to its query: put in at
/// the end of the text or directly before a `#` in it, and joined to what
/// stands before them by `?`, by `&`, or by nothing where that ends in `?`
/// or there are no pairs. Nothing else differs.
pub open spec fn query_added(
    before: Seq<char>,
    params: Seq<(Seq<char>, Seq<char>)>,
    after: Seq<char>,
) -> bool {
    exists|cut: int, glue: Seq<char>|
        {
            &&& 0 <= cut <= before.len()
            &&& cut < before.len() ==> before[cut] == '#'
            &&& {
                ||| glue == seq!['?']
                ||| glue == seq!['&'] && params.len() > 0
                ||| glue.len() == 0 && (params.len() == 0 || (cut > 0 && before[cut - 1] == '?'))
            }
            &&& after == #[trigger] with_query_at(before, cut, glue, params)
        }
}

/// Parses `base` with `url::Url::parse`, resolves `node` against it with
/// `url::Url::join` and returns the text of the result. Nothing is claimed of
/// that text but that it is the one `joined_address` names.
#[verifier::external_body]
fn join_address(base: &str, node: &str) -> (joined: Option<String>)
    ensures
        match joined {
            Some(text) => joined_address(base@, node@) == Some(text@),
            None => joined_address(base@, node@) is None,
        },
{
    match url::Url::parse(base) {
        Ok(root) => match root.join(node) {
            Ok(url) => Some(String::from(url)),
            Err(_) => None,
        },
        Err(_) => None,
    }
}

/// Parses `base` with `url::Url::parse`, resolves `node` against it with
/// `url::Url::join`, adds the pairs to the query of the result with
/// `query_pairs_mut().extend_pairs(params)` and returns its text, which is
/// the one `queried_address` names.
///
/// The url crate counts the bytes of an address in 32 bits and panics where
/// the text outgrows them, so the pairs have to fit. It is claimed that an
/// address that can be joined comes back, and that its text is the joined
/// one with the pairs put in as `query_added` says: the crate takes a
/// fragment off, writes `?` where there is no query, writes each pair in
/// its order as the encoded key, `=` and the encoded value, with `&` before
/// it where the query holds something already, and puts the fragment back.
#[verifier::external_body]
fn query_address(base: &str, node: &str, params: &Vec<(String, String)>) -> (queried: Option<
    String,
>)
    requires
        joined_address(base@, node@) matches Some(before) ==> fits(before, pairs_view(params@)),
    ensures
        match queried {
            Some(text) => queried_address(base@, node@, pairs_view(params@)) == Some(text@),
            None => queried_address(base@, node@, pairs_view(params@)) is None,
        },
        match joined_address(base@, node@) {
            Some(before) => queried matches Some(text) && query_added(
                before,
                pairs_view(params@),
                text@,
            ),
            None => queried is None,
        },
{
    match url::Url::parse(base) {
        Ok(root) => match root.join(node) {
            Ok(mut url) => {
                url.query_pairs_mut().extend_pairs(params).finish();
                Some(String::from(url))
            },
            Err(_) => None,
        },
        Err(_) => None,
    }
}

/// The query of the pairs is no longer than the room that is kept for it.
pub proof fn lemma_query_within_room(params: Seq<(Seq<char>, Seq<char>)>)
    ensures
        query_text(params).len() <= query_room(params),
    decreases params.len(),
{
    if params.len() > 0 {
        lemma_encoded_len(encode_utf8(params.last().0));
        lemma_encoded_len(encode_utf8(params.last().1));
        lemma_query_within_room(params.drop_last());
        if params.len() == 1 {
            assert(params.last() == params[0]);
        }
    }
}

/// The room that pairs take grows with each pair.
proof fn lemma_query_room_grows(params: Seq<(Seq<char>, Seq<char>)>, n: int)
    requires
        0 <= n <= params.len(),
    ensures
        query_room(params.take(n)) <= query_room(params),
    decreases params.len() - n,
{
    if n < params.len() {
        lemma_query_room_grows(params, n + 1);
        assert(params.take(n + 1).drop_last() == params.take(n));
    } else {
        assert(params.take(n) == params);
    }
}

/// Tests whether a text of `length` bytes and the pairs are within the
/// count.
pub fn params_fit(length: usize, params: &Vec<(String, String)>) -> (within: bool)
    ensures
        within == within_count(length as nat, pairs_view(params@)),
{
    let ghost all = pairs_view(params@);
    let limit: u64 = 0xffff_ffff;
    if length as u64 >= limit {
        return false;
    }
    let mut used: u64 = length as u64 + 1;
    let mut i: usize = 0;
    assert(all.take(0).len() == 0);
    while i < params.len()
        invariant
            all == pairs_view(params@),
            i <= params@.len(),
            limit == u32::MAX,
            used <= limit,
            used == length + 1 + query_room(all.take(i as int)),
        decreases params@.len() - i,
    {
        let pair = &params[i];
        let need: u128 = 3 * (pair.0.as_str().as_bytes().len() as u128) + 3 * (
        pair.1.as_str().as_bytes().len() as u128) + 2;
        proof {
            assert(all.take(i + 1).drop_last() == all.take(i as int));
            assert(all.take(i + 1).last() == (pair.0@, pair.1@));
            lemma_query_room_grows(all, i + 1);
        }
        if need > (limit - used) as u128 {
            return false;
        }
        used = used + need as u64;
        i += 1;
    }
    assert(all.take(i as int) == all);
    true
}

/// The address of a request: `node` joined to `base`, with the parameters
/// added to its query in the order of the sequence. It is the text that
/// `queried_address` names, which is the joined address with the
/// parameters put in. There is none where the address cannot be joined or
/// the parameters do not fit.
pub open spec fn address(
    base: Seq<char>,
    node: Seq<char>,
    params: Seq<(Seq<char>, Seq<char>)>,
) -> Option<Seq<char>> {
    match (joined_address(base, node), queried_address(base, node, params)) {
        (Some(before), Some(after)) => if fits(before, params) && query_added(
            before,
            params,
            after,
        ) {
            Some(after)
        } else {
            None
        },
        _ => None,
    }
}

/// A parameter that is added last stands last in the query, behind `&`
/// where there are others: the query holds the parameters in the order in
/// which they were added.
pub proof fn lemma_query_keeps_order(
    params: Seq<(Seq<char>, Seq<char>)>,
    key: Seq<char>,
    value: Seq<char>,
)
    ensures
        query_text(params.push((key, value))) == if params.len() == 0 {
            encoded_pair((key, value))
        } else {
            query_text(params) + seq!['&'] + encoded_pair((key, value))
        },
{
    assert(params.push((key, value)).drop_last() == params);
}

/// Each parameter stands in the query in its encoded form, whatever its key
/// and its value hold.
pub proof fn lemma_query_holds_pair(params: Seq<(Seq<char>, Seq<char>)>, i: int)
    requires
        0 <= i < params.len(),
    ensures
        exists|at: int| occurs_at(query_text(params), encoded_pair(params[i]), at),
    decreases params.len(),
{
    let query = query_text(params);
    let pair = encoded_pair(params[i]);
    if params.len() == 1 {
        assert(query.subrange(0, pair.len() as int) == pair);
        assert(occurs_at(query, pair, 0));
    } else if i == params.len() - 1 {
        let at = query.len() - pair.len();
        assert(query.subrange(at, at + pair.len()) == pair);
        assert(occurs_at(query, pair, at));
    } else {
        let front = params.drop_last();
        lemma_query_holds_pair(front, i);
        let at = choose|at: int| occurs_at(query_text(front), encoded_pair(front[i]), at);
        assert(query.subrange(at, at + pair.len()) == query_text(front).subrange(
            at,
            at + pair.len(),
        ));
        assert(occurs_at(query, pair, at));
    }
}

/// An address holds the query of its parameters, each encoded and in the
/// order in which they were added, at its end or directly before a `#`.
pub proof fn lemma_address_holds_query(
    base: Seq<char>,
    node: Seq<char>,
    params: Seq<(Seq<char>, Seq<char>)>,
)
    ensures
        address(base, node, params) matches Some(text) ==> exists|at: int|
            {
                &&& #[trigger] occurs_at(text, query_text(params), at)
                &&& at + query_text(params).len() < text.len() ==> text[at + query_text(
                    params,
                ).len()] == '#'
            },
{
    if let Some(text) = address(base, node, params) {
        let before = joined_address(base, node)->0;
        let (cut, glue): (int, Seq<char>) = choose|cut: int, glue: Seq<char>|
            {
                &&& 0 <= cut <= before.len()
                &&& cut < before.len() ==> before[cut] == '#'
                &&& {
                    ||| glue == seq!['?']
                    ||| glue == seq!['&'] && params.len() > 0
                    ||| glue.len() == 0 && (params.len() == 0 || (cut > 0 && before[cut - 1]
                        == '?'))
                }
                &&& text == #[trigger] with_query_at(before, cut, glue, params)
            };
        let query = query_text(params);
        let at = cut + glue.len();
        assert(text.subrange(at, at + query.len()) == query);
        assert(occurs_at(text, query, at));
        if at + query.len() < text.len() {
            assert(text[at + query.len()] == before[cut]);
        }
    }
}

/// A request to the gateway: a node path and its query parameters, in the
/// order in which they were added.
pub struct GatewayRequest {
    pub node: String,
    pub params: Vec<(String, String)>,
}

/// The mathematical content of a [`GatewayRequest`].
pub struct RequestView {
    pub node: Seq<char>,
    pub params: Seq<(Seq<char>, Seq<char>)>,
}

impl View for GatewayRequest {
    type V = RequestView;

    open spec fn view(&self) -> RequestView {
        RequestView { node: self.node@, params: pairs_view(self.params@) }
    }
}

impl GatewayRequest {
    /// A request to `node` whose only parameter names the callback.
    pub fn new(node: &str) -> (request: GatewayRequest)
        ensures
            request@.node == node@,
            request@.params == seq![("callback"@, CALLBACK@)],
    {
        let mut params: Vec<(String, String)> = Vec::new();
        params.push(("callback".to_owned(), CALLBACK.to_owned()));
        assert(pairs_view(params@) == seq![("callback"@, CALLBACK@)]);
        GatewayRequest { node: node.to_owned(), params }
    }

    /// The request with one more parameter behind those it has.
    pub fn param(self, key: &str, value: &str) -> (request: GatewayRequest)
        ensures
            request@.node == self@.node,
            request@.params == self@.params.push((key@, value@)),
    {
        let mut params = self.params;
        params.push((key.to_owned(), value.to_owned()));
        assert(pairs_view(params@) == pairs_view(self.params@).push((key@, value@)));
        GatewayRequest { node: self.node, params }
    }

    /// The address to fetch: the node joined to [`ENTRANCE`], with the
    /// parameters added to its query in their order. `None` where the
    /// address cannot be formed: where the url crate refuses the node, or
    /// where the parameters would take the text beyond what the crate can
    /// count.
    pub fn url(&self) -> (url: Option<String>)
        ensures
            match url {
                Some(text) => address(ENTRANCE@, self@.node, self@.params) == Some(text@),
                None => address(ENTRANCE@, self@.node, self@.params) is None,
            },
    {
        match join_address(ENTRANCE, self.node.as_str()) {
            Some(before) => {
                if params_fit(before.as_str().as_bytes().len(), &self.params) {
                    query_address(ENTRANCE, self.node.as_str(), &self.params)
                } else {
                    None
                }
            },
            None => None,
        }
    }
}

/// What came back from one attempt to fetch an address: the HTTP status and
/// the body, where it could be read.
pub struct RawResponse {
    pub status: u16,
    pub body: Option<String>,
}

/// What one attempt comes to: the body of an accepted request, or a request
/// failure. `None` stands for a gateway that was not reached.
///
/// A status other than 200 fails with that status and whatever body came
/// with it; an accepted request whose body could not be read fails without
/// diagnostics.
pub open spec fn classified(outcome: Option<RawResponse>) -> Result<Seq<char>, ErrorView> {
    match outcome {
        None => Err(bare(Kind::Request)),
        Some(response) => if response.status != STATUS_OK {
            Err(
                ErrorView {
                    kind: Kind::Request,
                    status: Some(response.status),
                    detail: match response.body {
                        Some(text) => Some(text@),
                        None => None,
                    },
                },
            )
        } else {
            match response.body {
                Some(text) => Ok(text@),
                None => Err(bare(Kind::Request)),
            }
        },
    }
}

/// Sorts the outcome of one attempt into the body of an accepted request or
/// a request failure.
pub fn classify(outcome: Option<RawResponse>) -> (body: Result<String, Error>)
    ensures
        match body {
            Ok(text) => classified(outcome) == Ok::<Seq<char>, ErrorView>(text@),
            Err(e) => classified(outcome) == Err::<Seq<char>, ErrorView>(e@),
        },
{
    match outcome {
        None => Err(Error::new(Kind::Request)),
        Some(response) => {
            if response.status != STATUS_OK {
                Err(Error::with_detail(Kind::Request, Some(response.status), response.body))
            } else {
                match response.body {
                    Some(text) => Ok(text),
                    None => Err(Error::new(Kind::Request)),
                }
            }
        },
    }
}

/// What one attempt hands to the decoder: the payload inside the envelope of
/// an accepted request's body, or the request failure.
pub open spec fn delivered(outcome: Option<RawResponse>) -> Result<Seq<char>, ErrorView> {
    match classified(outcome) {
        Ok(body) => Ok(payload(body, CALLBACK@)),
        Err(e) => Err(e),
    }
}

/// Sorts the outcome of one attempt and strips the envelope from the body
/// of an accepted request.
pub fn deliver(outcome: Option<RawResponse>) -> (inner: Result<String, Error>)
    ensures
        match inner {
            Ok(text) => delivered(outcome) == Ok::<Seq<char>, ErrorView>(text@),
            Err(e) => delivered(outcome) == Err::<Seq<char>, ErrorView>(e@),
        },
{
    match classify(outcome) {
        Ok(body) => Ok(unwrap(body.as_str(), CALLBACK)),
        Err(e) => Err(e),
    }
}

/// An answer with any status but 200 is a request failure that carries that
/// status, whatever its body holds: nothing is delivered.
pub proof fn lemma_status_rejected(response: RawResponse)
    requires
        response.status != STATUS_OK,
    ensures
        classified(Some(response)) matches Err(e) && e.kind == Kind::Request && e.status == Some(
            response.status,
        ),
        delivered(Some(response)) == classified(Some(response)),
{
}

/// An answer with status 200 whose body is the callback's name, `(`, a
/// payload and `)` delivers that payload.
pub proof fn lemma_delivers_wrapped(response: RawResponse, inner: Seq<char>)
    requires
        response.status == STATUS_OK,
        response.body matches Some(text) && text@ == opening(CALLBACK@) + inner + seq![')'],
    ensures
        delivered(Some(response)) == Ok::<Seq<char>, ErrorView>(inner),
{
    lemma_unwrap_wrapped(CALLBACK@, inner);
}

} // verus!
