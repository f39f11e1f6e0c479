//! Logging out: a request without credentials and the answer that closes the
//! session's account.

use crate::envelope::{lemma_mismatch_keeps_body, opening};
use crate::error::{bare, Error, ErrorView, Kind};
use crate::json::{
    integer_field, lemma_unframed, members_of, number_field, object_members, read_integer,
    read_number, read_string, string_field,
};
use crate::text::occurs_at;
use crate::transport::{
    deliver, delivered, lemma_delivers_wrapped, lemma_status_rejected, GatewayRequest, RawResponse,
    CALLBACK, STATUS_OK,
};
use vstd::prelude::*;

verus! {

/// The node that takes a logout.
pub const NODE: &'static str = "/drcom/logout";

/// What the gateway answers to a logout. The volume of data used is kept as
/// the decimal text of the number that the gateway sent.
#[derive(Debug)]
pub struct Response {
    pub result: i32,
    pub ss5: String,
    pub ss6: String,
    pub ss4: String,
    pub time: i32,
    pub flow: String,
    pub uid: String,
}

/// The mathematical content of a [`Response`].
pub struct ResponseView {
    pub result: i32,
    pub ss5: Seq<char>,
    pub ss6: Seq<char>,
    pub ss4: Seq<char>,
    pub time: i32,
    pub flow: Seq<char>,
    pub uid: Seq<char>,
}

impl View for Response {
    type V = ResponseView;

    open spec fn view(&self) -> ResponseView {
        ResponseView {
            result: self.result,
            ss5: self.ss5@,
            ss6: self.ss6@,
            ss4: self.ss4@,
            time: self.time,
            flow: self.flow@,
            uid: self.uid@,
        }
    }
}

/// The fields of a logout's answer, each as far as it could be read.
pub struct Fields {
    pub result: Option<i32>,
    pub ss5: Option<String>,
    pub ss6: Option<String>,
    pub ss4: Option<String>,
    pub time: Option<i32>,
    pub flow: Option<String>,
    pub uid: Option<String>,
}

/// The request that logs the session out: the callback and nothing else.
pub fn request() -> (request: GatewayRequest)
    ensures
        request@.node == NODE@,
        request@.params == seq![("callback"@, CALLBACK@)],
{
    GatewayRequest::new(NODE)
}

/// The response made of the seven fields, where all seven were read.
pub open spec fn assembled(
    result: Option<i32>,
    ss5: Option<Seq<char>>,
    ss6: Option<Seq<char>>,
    ss4: Option<Seq<char>>,
    time: Option<i32>,
    flow: Option<Seq<char>>,
    uid: Option<Seq<char>>,
) -> Option<ResponseView> {
    if result is Some && ss5 is Some && ss6 is Some && ss4 is Some && time is Some && flow is Some
        && uid is Some {
        Some(
            ResponseView {
                result: result->0,
                ss5: ss5->0,
                ss6: ss6->0,
                ss4: ss4->0,
                time: time->0,
                flow: flow->0,
                uid: uid->0,
            },
        )
    } else {
        None
    }
}

/// Makes the response of the seven fields. One field that could not be read
/// is a parse failure: no response is made of the others.
pub fn assemble(fields: Fields) -> (response: Result<Response, Error>)
    ensures
        match response {
            Ok(made) => {
                &&& fields.result == Some(made.result)
                &&& fields.ss5 == Some(made.ss5)
                &&& fields.ss6 == Some(made.ss6)
                &&& fields.ss4 == Some(made.ss4)
                &&& fields.time == Some(made.time)
                &&& fields.flow == Some(made.flow)
                &&& fields.uid == Some(made.uid)
            },
            Err(e) => {
                &&& e@ == bare(Kind::Parse)
                &&& (fields.result is None || fields.ss5 is None || fields.ss6 is None
                    || fields.ss4 is None || fields.time is None || fields.flow is None
                    || fields.uid is None)
            },
        },
{
    match (
        fields.result,
        fields.ss5,
        fields.ss6,
        fields.ss4,
        fields.time,
        fields.flow,
        fields.uid,
    ) {
        (Some(result), Some(ss5), Some(ss6), Some(ss4), Some(time), Some(flow), Some(uid)) => Ok(
            Response { result, ss5, ss6, ss4, time, flow, uid },
        ),
        _ => Err(Error::new(Kind::Parse)),
    }
}

/// The response that a payload decodes to: a JSON object whose members
/// `result` and `time` are integers, `ss5`, `ss6`, `ss4` and `uid` strings
/// and `flow` a number. Other members are passed over.
pub open spec fn decoded(payload: Seq<char>) -> Option<ResponseView> {
    match object_members(payload) {
        Some(members) => assembled(
            integer_field(members, "result"@),
            string_field(members, "ss5"@),
            string_field(members, "ss6"@),
            string_field(members, "ss4"@),
            integer_field(members, "time"@),
            number_field(members, "flow"@),
            string_field(members, "uid"@),
        ),
        None => None,
    }
}

/// Decodes a payload. Whatever does not decode is a parse failure without
/// diagnostics.
pub fn decode(payload: &str) -> (response: Result<Response, Error>)
    ensures
        match response {
            Ok(made) => decoded(payload@) == Some(made@),
            Err(e) => decoded(payload@) is None && e@ == bare(Kind::Parse),
        },
{
    match members_of(payload) {
        Some(members) => assemble(
            Fields {
                result: read_integer(&members, "result"),
                ss5: read_string(&members, "ss5"),
                ss6: read_string(&members, "ss6"),
                ss4: read_string(&members, "ss4"),
                time: read_integer(&members, "time"),
                flow: read_number(&members, "flow"),
                uid: read_string(&members, "uid"),
            },
        ),
        None => Err(Error::new(Kind::Parse)),
    }
}

/// What a logout comes to, given the outcome of fetching its request: the
/// request failure of the transport, else the decoded payload, else a parse
/// failure.
pub open spec fn outcome_of(outcome: Option<RawResponse>) -> Result<ResponseView, ErrorView> {
    match delivered(outcome) {
        Ok(payload) => match decoded(payload) {
            Some(made) => Ok(made),
            None => Err(bare(Kind::Parse)),
        },
        Err(e) => Err(e),
    }
}

/// Completes a logout from the outcome of fetching its request.
pub fn logout(outcome: Option<RawResponse>) -> (response: Result<Response, Error>)
    ensures
        match response {
            Ok(made) => outcome_of(outcome) == Ok::<ResponseView, ErrorView>(made@),
            Err(e) => outcome_of(outcome) == Err::<ResponseView, ErrorView>(e@),
        },
{
    match deliver(outcome) {
        Ok(payload) => decode(payload.as_str()),
        Err(e) => Err(e),
    }
}

/// An answer with any status but 200 is a request failure that carries that
/// status: a logout never succeeds on it.
pub proof fn lemma_outcome_of_rejects_status(response: RawResponse)
    requires
        response.status != STATUS_OK,
    ensures
        outcome_of(Some(response)) matches Err(e) && e.kind == Kind::Request && e.status == Some(
            response.status,
        ),
{
    lemma_status_rejected(response);
}

/// An answer with status 200 whose body wraps a payload comes to what the
/// payload decodes to, and to a parse failure where it decodes to nothing.
pub proof fn lemma_outcome_of_wrapped(response: RawResponse, inner: Seq<char>)
    requires
        response.status == STATUS_OK,
        response.body matches Some(text) && text@ == opening(CALLBACK@) + inner + seq![')'],
    ensures
        outcome_of(Some(response)) == match decoded(inner) {
            Some(made) => Ok::<ResponseView, ErrorView>(made),
            None => Err::<ResponseView, ErrorView>(bare(Kind::Parse)),
        },
{
    lemma_delivers_wrapped(response, inner);
}

/// An answer with status 200 under another name than the callback's comes
/// to a parse failure, whatever stands between its parentheses: where the
/// callback's opening stands nowhere in the body, the body is handed on as
/// it came, and a text that ends in `)` is no JSON object.
pub proof fn lemma_outcome_of_other_name(response: RawResponse, name: Seq<char>, inner: Seq<char>)
    requires
        response.status == STATUS_OK,
        response.body matches Some(text) && text@ == opening(name) + inner + seq![')'],
        forall|k: int| !occurs_at(opening(name) + inner + seq![')'], opening(CALLBACK@), k),
    ensures
        outcome_of(Some(response)) == Err::<ResponseView, ErrorView>(bare(Kind::Parse)),
{
    let body = opening(name) + inner + seq![')'];
    lemma_mismatch_keeps_body(body, CALLBACK@);
    assert(body.last() == ')');
    lemma_unframed(body, '{', '}');
}

/// A payload that is not one JSON object decodes to nothing, so it is a parse
/// failure and never a result made of some of its parts.
pub proof fn lemma_malformed_payload(payload: Seq<char>)
    requires
        object_members(payload) is None,
    ensures
        decoded(payload) is None,
{
}

} // verus!
