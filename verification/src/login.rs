//! Logging in: the request that carries the credentials and the answer that
//! names the session.

use crate::envelope::{lemma_mismatch_keeps_body, opening};
use crate::error::{bare, Error, ErrorView, Kind};
use crate::form::{encoded, lemma_encoded_kept};
use crate::json::{
    integer_field, lemma_unframed, members_of, object_members, read_integer, read_string,
    string_field,
};
use crate::text::occurs_at;
use crate::transport::{
    address, deliver, delivered, lemma_address_holds_query, lemma_delivers_wrapped,
    lemma_query_keeps_order, lemma_status_rejected, query_text, GatewayRequest, RawResponse,
    CALLBACK, ENTRANCE, STATUS_OK,
};
use vstd::prelude::*;

verus! {

/// The node that takes a login.
pub const NODE: &'static str = "/drcom/login";

/// The constant that the gateway expects beside the credentials. It is a
/// fixed magic value, not a secret.
pub const KEY: &'static str = "123456";

/// What the gateway answers to a login.
#[derive(Debug)]
pub struct Response {
    pub result: i32,
    pub v46ip: String,
    pub olmac: String,
    pub uid: String,
}

/// The mathematical content of a [`Response`].
pub struct ResponseView {
    pub result: i32,
    pub v46ip: Seq<char>,
    pub olmac: Seq<char>,
    pub uid: Seq<char>,
}

impl View for Response {
    type V = ResponseView;

    open spec fn view(&self) -> ResponseView {
        ResponseView {
            result: self.result,
            v46ip: self.v46ip@,
            olmac: self.olmac@,
            uid: self.uid@,
        }
    }
}

/// The request that logs `account` in: the callback, the account, the
/// password and the fixed key, in this order.
pub fn request(account: &str, password: &str) -> (request: GatewayRequest)
    ensures
        request@.node == NODE@,
        request@.params == seq![
            ("callback"@, CALLBACK@),
            ("DDDDD"@, account@),
            ("upass"@, password@),
            ("0MKKey"@, KEY@),
        ],
{
    GatewayRequest::new(NODE).param("DDDDD", account).param("upass", password).param("0MKKey", KEY)
}

/// The parameters of a login as they stand in its address: the callback,
/// the account, the password and the key under their names, the account and
/// the password in their encoded form.
pub open spec fn query_of(account: Seq<char>, password: Seq<char>) -> Seq<char> {
    "callback=ctbox&DDDDD="@ + encoded(account) + "&upass="@ + encoded(password)
        + "&0MKKey=123456"@
}

/// Whatever the account and the password hold, the query of a login's
/// request is the four parameters in their order, with the account and the
/// password encoded: what stands in them cannot end a parameter or begin
/// another.
pub proof fn lemma_query_of_request(account: Seq<char>, password: Seq<char>)
    ensures
        query_text(
            seq![
                ("callback"@, CALLBACK@),
                ("DDDDD"@, account),
                ("upass"@, password),
                ("0MKKey"@, KEY@),
            ],
        ) == query_of(account, password),
{
    reveal_strlit("callback");
    reveal_strlit("ctbox");
    reveal_strlit("DDDDD");
    reveal_strlit("upass");
    reveal_strlit("0MKKey");
    reveal_strlit("123456");
    reveal_strlit("callback=ctbox&DDDDD=");
    reveal_strlit("&upass=");
    reveal_strlit("&0MKKey=123456");
    lemma_encoded_kept("callback"@);
    lemma_encoded_kept("ctbox"@);
    lemma_encoded_kept("DDDDD"@);
    lemma_encoded_kept("upass"@);
    lemma_encoded_kept("0MKKey"@);
    lemma_encoded_kept("123456"@);
    let first = seq![("callback"@, CALLBACK@)];
    let second = first.push(("DDDDD"@, account));
    let third = second.push(("upass"@, password));
    let fourth = third.push(("0MKKey"@, KEY@));
    lemma_query_keeps_order(first, "DDDDD"@, account);
    lemma_query_keeps_order(second, "upass"@, password);
    lemma_query_keeps_order(third, "0MKKey"@, KEY@);
    assert(fourth == seq![
        ("callback"@, CALLBACK@),
        ("DDDDD"@, account),
        ("upass"@, password),
        ("0MKKey"@, KEY@),
    ]);
    assert(query_text(fourth) =~= query_of(account, password));
}

/// Where a login's request has an address, the address holds that query,
/// at its end or directly before a `#`.
pub proof fn lemma_address_of_request(account: Seq<char>, password: Seq<char>)
    ensures
        address(
            ENTRANCE@,
            NODE@,
            seq![
                ("callback"@, CALLBACK@),
                ("DDDDD"@, account),
                ("upass"@, password),
                ("0MKKey"@, KEY@),
            ],
        ) matches Some(text) ==> exists|at: int|
            {
                &&& #[trigger] occurs_at(text, query_of(account, password), at)
                &&& at + query_of(account, password).len() < text.len() ==> text[at + query_of(
                    account,
                    password,
                ).len()] == '#'
            },
{
    let params = seq![
        ("callback"@, CALLBACK@),
        ("DDDDD"@, account),
        ("upass"@, password),
        ("0MKKey"@, KEY@),
    ];
    lemma_query_of_request(account, password);
    lemma_address_holds_query(ENTRANCE@, NODE@, params);
}

/// The response made of the four fields, where all four were read.
pub open spec fn assembled(
    result: Option<i32>,
    v46ip: Option<Seq<char>>,
    olmac: Option<Seq<char>>,
    uid: Option<Seq<char>>,
) -> Option<ResponseView> {
    if result is Some && v46ip is Some && olmac is Some && uid is Some {
        Some(
            ResponseView {
                result: result->0,
                v46ip: v46ip->0,
                olmac: olmac->0,
                uid: uid->0,
            },
        )
    } else {
        None
    }
}

/// Makes the response of the four fields. One field that could not be read
/// is a parse failure: no response is made of the others.
pub fn assemble(
    result: Option<i32>,
    v46ip: Option<String>,
    olmac: Option<String>,
    uid: Option<String>,
) -> (response: Result<Response, Error>)
    ensures
        match response {
            Ok(made) => result == Some(made.result) && v46ip == Some(made.v46ip) && olmac == Some(
                made.olmac,
            ) && uid == Some(made.uid),
            Err(e) => e@ == bare(Kind::Parse) && (result is None || v46ip is None || olmac is None
                || uid is None),
        },
{
    match (result, v46ip, olmac, uid) {
        (Some(result), Some(v46ip), Some(olmac), Some(uid)) => Ok(
            Response { result, v46ip, olmac, uid },
        ),
        _ => Err(Error::new(Kind::Parse)),
    }
}

/// The response that a payload decodes to: a JSON object whose members
/// `result`, `v46ip`, `olmac` and `uid` are an integer and three strings.
/// Other members are passed over.
pub open spec fn decoded(payload: Seq<char>) -> Option<ResponseView> {
    match object_members(payload) {
        Some(members) => assembled(
            integer_field(members, "result"@),
            string_field(members, "v46ip"@),
            string_field(members, "olmac"@),
            string_field(members, "uid"@),
        ),
        None => None,
    }
}

/// Decodes a payload. Whatever does not decode is a parse failure without
/// diagnostics.
pub fn decode(payload: &str) -> (response: Result<Response, Error>)
    ensures
        match response {
            Ok(made) => decoded(payload@) == Some(made@),
            Err(e) => decoded(payload@) is None && e@ == bare(Kind::Parse),
        },
{
    match members_of(payload) {
        Some(members) => assemble(
            read_integer(&members, "result"),
            read_string(&members, "v46ip"),
            read_string(&members, "olmac"),
            read_string(&members, "uid"),
        ),
        None => Err(Error::new(Kind::Parse)),
    }
}

/// What a login comes to, given the outcome of fetching its request: the
/// request failure of the transport, else the decoded payload, else a parse
/// failure.
pub open spec fn outcome_of(outcome: Option<RawResponse>) -> Result<ResponseView, ErrorView> {
    match delivered(outcome) {
        Ok(payload) => match decoded(payload) {
            Some(made) => Ok(made),
            None => Err(bare(Kind::Parse)),
        },
        Err(e) => Err(e),
    }
}

/// Completes a login from the outcome of fetching its request.
pub fn login(outcome: Option<RawResponse>) -> (response: Result<Response, Error>)
    ensures
        match response {
            Ok(made) => outcome_of(outcome) == Ok::<ResponseView, ErrorView>(made@),
            Err(e) => outcome_of(outcome) == Err::<ResponseView, ErrorView>(e@),
        },
{
    match deliver(outcome) {
        Ok(payload) => decode(payload.as_str()),
        Err(e) => Err(e),
    }
}

/// An answer with any status but 200 is a request failure that carries that
/// status: a login never succeeds on it.
pub proof fn lemma_outcome_of_rejects_status(response: RawResponse)
    requires
        response.status != STATUS_OK,
    ensures
        outcome_of(Some(response)) matches Err(e) && e.kind == Kind::Request && e.status == Some(
            response.status,
        ),
{
    lemma_status_rejected(response);
}

/// An answer with status 200 whose body wraps a payload comes to what the
/// payload decodes to, and to a parse failure where it decodes to nothing.
pub proof fn lemma_outcome_of_wrapped(response: RawResponse, inner: Seq<char>)
    requires
        response.status == STATUS_OK,
        response.body matches Some(text) && text@ == opening(CALLBACK@) + inner + seq![')'],
    ensures
        outcome_of(Some(response)) == match decoded(inner) {
            Some(made) => Ok::<ResponseView, ErrorView>(made),
            None => Err::<ResponseView, ErrorView>(bare(Kind::Parse)),
        },
{
    lemma_delivers_wrapped(response, inner);
}

/// An answer with status 200 under another name than the callback's comes
/// to a parse failure, whatever stands between its parentheses: where the
/// callback's opening stands nowhere in the body, the body is handed on as
/// it came, and a text that ends in `)` is no JSON object.
pub proof fn lemma_outcome_of_other_name(response: RawResponse, name: Seq<char>, inner: Seq<char>)
    requires
        response.status == STATUS_OK,
        response.body matches Some(text) && text@ == opening(name) + inner + seq![')'],
        forall|k: int| !occurs_at(opening(name) + inner + seq![')'], opening(CALLBACK@), k),
    ensures
        outcome_of(Some(response)) == Err::<ResponseView, ErrorView>(bare(Kind::Parse)),
{
    let body = opening(name) + inner + seq![')'];
    lemma_mismatch_keeps_body(body, CALLBACK@);
    assert(body.last() == ')');
    lemma_unframed(body, '{', '}');
}

/// A payload that is not one JSON object decodes to nothing, so it is a parse
/// failure and never a result made of some of its parts.
pub proof fn lemma_malformed_payload(payload: Seq<char>)
    requires
        object_members(payload) is None,
    ensures
        decoded(payload) is None,
{
}

} // verus!
