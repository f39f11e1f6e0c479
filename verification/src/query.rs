//! Queries: what an account has used, and which devices are logged in.

use crate::envelope::{lemma_mismatch_keeps_body, opening};
use crate::error::{bare, Error, ErrorView, Kind};
use crate::json::{
    array_elements, elements_of, integer_field, lemma_unframed, members_of, number_field,
    object_members, optional_string_field, read_integer, read_number, read_optional_string,
    read_string, string_field,
};
use crate::text::{occurs_at, texts_view};
use crate::transport::{
    deliver, delivered, lemma_delivers_wrapped, lemma_status_rejected, GatewayRequest, RawResponse,
    CALLBACK, STATUS_OK,
};
use vstd::prelude::*;

verus! {

/// The node that reports on accounts.
pub const NODE_USER: &'static str = "/drcom/query_user";

/// The node that reports on devices.
pub const NODE_DEVICE: &'static str = "/drcom/query_device";

/// What one account has used. The volume of data and the balance are kept
/// as the decimal text of the numbers that the gateway sent.
#[derive(Debug)]
pub struct UserInfo {
    pub user_flow: String,
    pub user_time: i32,
    pub user_money: String,
    pub mac: Option<String>,
}

/// The mathematical content of a [`UserInfo`].
pub struct UserInfoView {
    pub user_flow: Seq<char>,
    pub user_time: i32,
    pub user_money: Seq<char>,
    pub mac: Option<Seq<char>>,
}

impl View for UserInfo {
    type V = UserInfoView;

    open spec fn view(&self) -> UserInfoView {
        UserInfoView {
            user_flow: self.user_flow@,
            user_time: self.user_time,
            user_money: self.user_money@,
            mac: match self.mac {
                Some(text) => Some(text@),
                None => None,
            },
        }
    }
}

/// One device that is logged in.
#[derive(Debug)]
pub struct DeviceInfo {
    pub login_time: String,
    pub bas_id: String,
    pub login_ip: String,
    pub mac_address: String,
}

/// The mathematical content of a [`DeviceInfo`].
pub struct DeviceInfoView {
    pub login_time: Seq<char>,
    pub bas_id: Seq<char>,
    pub login_ip: Seq<char>,
    pub mac_address: Seq<char>,
}

impl View for DeviceInfo {
    type V = DeviceInfoView;

    open spec fn view(&self) -> DeviceInfoView {
        DeviceInfoView {
            login_time: self.login_time@,
            bas_id: self.bas_id@,
            login_ip: self.login_ip@,
            mac_address: self.mac_address@,
        }
    }
}

/// The parameters of a query: the callback, then the account where one is
/// asked for.
pub open spec fn query_params(account: Option<&str>) -> Seq<(Seq<char>, Seq<char>)> {
    match account {
        Some(name) => seq![("callback"@, CALLBACK@), ("account"@, name@)],
        None => seq![("callback"@, CALLBACK@)],
    }
}

fn query_request(node: &str, account: Option<&str>) -> (request: GatewayRequest)
    ensures
        request@.node == node@,
        request@.params == query_params(account),
{
    let request = GatewayRequest::new(node);
    match account {
        Some(name) => request.param("account", name),
        None => request,
    }
}

/// The request that asks what accounts have used: all of them, or the one
/// named.
pub fn user_request(account: Option<&str>) -> (request: GatewayRequest)
    ensures
        request@.node == NODE_USER@,
        request@.params == query_params(account),
{
    query_request(NODE_USER, account)
}

/// The request that asks which devices are logged in: all of them, or those
/// of the account named.
pub fn device_request(account: Option<&str>) -> (request: GatewayRequest)
    ensures
        request@.node == NODE_DEVICE@,
        request@.params == query_params(account),
{
    query_request(NODE_DEVICE, account)
}

/// The record made of the four fields, where all four were read. An absent
/// address is a field that was read.
pub open spec fn assembled_user(
    user_flow: Option<Seq<char>>,
    user_time: Option<i32>,
    user_money: Option<Seq<char>>,
    mac: Option<Option<Seq<char>>>,
) -> Option<UserInfoView> {
    if user_flow is Some && user_time is Some && user_money is Some && mac is Some {
        Some(
            UserInfoView {
                user_flow: user_flow->0,
                user_time: user_time->0,
                user_money: user_money->0,
                mac: mac->0,
            },
        )
    } else {
        None
    }
}

/// Makes an account's record of its four fields. One field that could not
/// be read is a parse failure.
pub fn assemble_user(
    user_flow: Option<String>,
    user_time: Option<i32>,
    user_money: Option<String>,
    mac: Option<Option<String>>,
) -> (record: Result<UserInfo, Error>)
    ensures
        match record {
            Ok(made) => user_flow == Some(made.user_flow) && user_time == Some(made.user_time)
                && user_money == Some(made.user_money) && mac == Some(made.mac),
            Err(e) => e@ == bare(Kind::Parse) && (user_flow is None || user_time is None
                || user_money is None || mac is None),
        },
{
    match (user_flow, user_time, user_money, mac) {
        (Some(user_flow), Some(user_time), Some(user_money), Some(mac)) => Ok(
            UserInfo { user_flow, user_time, user_money, mac },
        ),
        _ => Err(Error::new(Kind::Parse)),
    }
}

/// The record that one element decodes to: a JSON object whose members
/// `user_flow` and `user_money` are numbers, `user_time` an integer and
/// `mac` a string, `null` or left out.
pub open spec fn decoded_user(element: Seq<char>) -> Option<UserInfoView> {
    match object_members(element) {
        Some(members) => assembled_user(
            number_field(members, "user_flow"@),
            integer_field(members, "user_time"@),
            number_field(members, "user_money"@),
            optional_string_field(members, "mac"@),
        ),
        None => None,
    }
}

/// Decodes one element of the answer to a query on accounts.
pub fn decode_user(element: &str) -> (record: Result<UserInfo, Error>)
    ensures
        match record {
            Ok(made) => decoded_user(element@) == Some(made@),
            Err(e) => decoded_user(element@) is None && e@ == bare(Kind::Parse),
        },
{
    match members_of(element) {
        Some(members) => assemble_user(
            read_number(&members, "user_flow"),
            read_integer(&members, "user_time"),
            read_number(&members, "user_money"),
            read_optional_string(&members, "mac"),
        ),
        None => Err(Error::new(Kind::Parse)),
    }
}

/// The record made of the four fields, where all four were read.
pub open spec fn assembled_device(
    login_time: Option<Seq<char>>,
    bas_id: Option<Seq<char>>,
    login_ip: Option<Seq<char>>,
    mac_address: Option<Seq<char>>,
) -> Option<DeviceInfoView> {
    if login_time is Some && bas_id is Some && login_ip is Some && mac_address is Some {
        Some(
            DeviceInfoView {
                login_time: login_time->0,
                bas_id: bas_id->0,
                login_ip: login_ip->0,
                mac_address: mac_address->0,
            },
        )
    } else {
        None
    }
}

/// Makes a device's record of its four fields. One field that could not be
/// read is a parse failure.
pub fn assemble_device(
    login_time: Option<String>,
    bas_id: Option<String>,
    login_ip: Option<String>,
    mac_address: Option<String>,
) -> (record: Result<DeviceInfo, Error>)
    ensures
        match record {
            Ok(made) => login_time == Some(made.login_time) && bas_id == Some(made.bas_id)
                && login_ip == Some(made.login_ip) && mac_address == Some(made.mac_address),
            Err(e) => e@ == bare(Kind::Parse) && (login_time is None || bas_id is None
                || login_ip is None || mac_address is None),
        },
{
    match (login_time, bas_id, login_ip, mac_address) {
        (Some(login_time), Some(bas_id), Some(login_ip), Some(mac_address)) => Ok(
            DeviceInfo { login_time, bas_id, login_ip, mac_address },
        ),
        _ => Err(Error::new(Kind::Parse)),
    }
}

/// The record that one element decodes to: a JSON object whose members
/// `login_time`, `bas_id`, `login_ip` and `mac_address` are strings.
pub open spec fn decoded_device(element: Seq<char>) -> Option<DeviceInfoView> {
    match object_members(element) {
        Some(members) => assembled_device(
            string_field(members, "login_time"@),
            string_field(members, "bas_id"@),
            string_field(members, "login_ip"@),
            string_field(members, "mac_address"@),
        ),
        None => None,
    }
}

/// Decodes one element of the answer to a query on devices.
pub fn decode_device(element: &str) -> (record: Result<DeviceInfo, Error>)
    ensures
        match record {
            Ok(made) => decoded_device(element@) == Some(made@),
            Err(e) => decoded_device(element@) is None && e@ == bare(Kind::Parse),
        },
{
    match members_of(element) {
        Some(members) => assemble_device(
            read_string(&members, "login_time"),
            read_string(&members, "bas_id"),
            read_string(&members, "login_ip"),
            read_string(&members, "mac_address"),
        ),
        None => Err(Error::new(Kind::Parse)),
    }
}

/// The accounts' records as their contents.
pub open spec fn users_view(records: Seq<UserInfo>) -> Seq<UserInfoView> {
    records.map_values(|record: UserInfo| record@)
}

/// The devices' records as their contents.
pub open spec fn devices_view(records: Seq<DeviceInfo>) -> Seq<DeviceInfoView> {
    records.map_values(|record: DeviceInfo| record@)
}

/// The records that a payload decodes to: a JSON array, each element of
/// which decodes to one record, in the array's order. One element that does
/// not decode leaves nothing of the others.
pub open spec fn decoded_users(payload: Seq<char>) -> Option<Seq<UserInfoView>> {
    match array_elements(payload) {
        Some(elements) => if forall|i: int|
            0 <= i < elements.len() ==> decoded_user(#[trigger] elements[i]) is Some {
            Some(Seq::new(elements.len(), |i: int| decoded_user(elements[i])->0))
        } else {
            None
        },
        None => None,
    }
}

/// The records that a payload decodes to: a JSON array, each element of
/// which decodes to one record, in the array's order. One element that does
/// not decode leaves nothing of the others.
pub open spec fn decoded_devices(payload: Seq<char>) -> Option<Seq<DeviceInfoView>> {
    match array_elements(payload) {
        Some(elements) => if forall|i: int|
            0 <= i < elements.len() ==> decoded_device(#[trigger] elements[i]) is Some {
            Some(Seq::new(elements.len(), |i: int| decoded_device(elements[i])->0))
        } else {
            None
        },
        None => None,
    }
}

/// Decodes the payload of the answer to a query on accounts.
pub fn decode_users(payload: &str) -> (records: Result<Vec<UserInfo>, Error>)
    ensures
        match records {
            Ok(list) => decoded_users(payload@) == Some(users_view(list@)),
            Err(e) => decoded_users(payload@) is None && e@ == bare(Kind::Parse),
        },
{
    let elements = match elements_of(payload) {
        Some(elements) => elements,
        None => {
            return Err(Error::new(Kind::Parse));
        },
    };
    let ghost texts = texts_view(elements@);
    let mut list: Vec<UserInfo> = Vec::new();
    let mut i: usize = 0;
    while i < elements.len()
        invariant
            texts == texts_view(elements@),
            array_elements(payload@) == Some(texts),
            i <= elements@.len(),
            list@.len() == i,
            forall|j: int| 0 <= j < i ==> decoded_user(#[trigger] texts[j]) == Some(list@[j]@),
        decreases elements@.len() - i,
    {
        assert(texts[i as int] == elements@[i as int]@);
        match decode_user(elements[i].as_str()) {
            Ok(record) => {
                list.push(record);
            },
            Err(e) => {
                assert(decoded_user(texts[i as int]) is None);
                return Err(e);
            },
        }
        i += 1;
    }
    assert(users_view(list@) =~= Seq::new(texts.len(), |i: int| decoded_user(texts[i])->0));
    Ok(list)
}

/// Decodes the payload of the answer to a query on devices.
pub fn decode_devices(payload: &str) -> (records: Result<Vec<DeviceInfo>, Error>)
    ensures
        match records {
            Ok(list) => decoded_devices(payload@) == Some(devices_view(list@)),
            Err(e) => decoded_devices(payload@) is None && e@ == bare(Kind::Parse),
        },
{
    let elements = match elements_of(payload) {
        Some(elements) => elements,
        None => {
            return Err(Error::new(Kind::Parse));
        },
    };
    let ghost texts = texts_view(elements@);
    let mut list: Vec<DeviceInfo> = Vec::new();
    let mut i: usize = 0;
    while i < elements.len()
        invariant
            texts == texts_view(elements@),
            array_elements(payload@) == Some(texts),
            i <= elements@.len(),
            list@.len() == i,
            forall|j: int| 0 <= j < i ==> decoded_device(#[trigger] texts[j]) == Some(list@[j]@),
        decreases elements@.len() - i,
    {
        assert(texts[i as int] == elements@[i as int]@);
        match decode_device(elements[i].as_str()) {
            Ok(record) => {
                list.push(record);
            },
            Err(e) => {
                assert(decoded_device(texts[i as int]) is None);
                return Err(e);
            },
        }
        i += 1;
    }
    assert(devices_view(list@) =~= Seq::new(texts.len(), |i: int| decoded_device(texts[i])->0));
    Ok(list)
}

/// What a login shows of the two queries that follow it: the balance of the
/// first account, where the query on accounts gave one, and the number of
/// devices, where the query on devices gave an answer.
pub open spec fn summarized(
    users: Result<Vec<UserInfo>, Error>,
    devices: Result<Vec<DeviceInfo>, Error>,
) -> (Option<Seq<char>>, Option<usize>) {
    (
        match users {
            Ok(list) => if list@.len() > 0 {
                Some(list@[0].user_money@)
            } else {
                None
            },
            Err(_) => None,
        },
        match devices {
            Ok(list) => Some(list@.len() as usize),
            Err(_) => None,
        },
    )
}

/// Picks what a login shows of the two queries that follow it. A query that
/// failed, or one on accounts that gave no record, leaves its part out.
pub fn summary(
    users: &Result<Vec<UserInfo>, Error>,
    devices: &Result<Vec<DeviceInfo>, Error>,
) -> (shown: (Option<String>, Option<usize>))
    ensures
        match shown.0 {
            Some(balance) => summarized(*users, *devices).0 == Some(balance@),
            None => summarized(*users, *devices).0 is None,
        },
        shown.1 == summarized(*users, *devices).1,
{
    let balance = match users {
        Ok(list) => if list.len() > 0 {
            Some(list[0].user_money.clone())
        } else {
            None
        },
        Err(_) => None,
    };
    let count = match devices {
        Ok(list) => Some(list.len()),
        Err(_) => None,
    };
    (balance, count)
}

/// What a query on accounts comes to, given the outcome of fetching its
/// request: the request failure of the transport, else the decoded records,
/// else a parse failure.
pub open spec fn users_of(outcome: Option<RawResponse>) -> Result<Seq<UserInfoView>, ErrorView> {
    match delivered(outcome) {
        Ok(payload) => match decoded_users(payload) {
            Some(records) => Ok(records),
            None => Err(bare(Kind::Parse)),
        },
        Err(e) => Err(e),
    }
}

/// What a query on devices comes to, given the outcome of fetching its
/// request: the request failure of the transport, else the decoded records,
/// else a parse failure.
pub open spec fn devices_of(outcome: Option<RawResponse>) -> Result<
    Seq<DeviceInfoView>,
    ErrorView,
> {
    match delivered(outcome) {
        Ok(payload) => match decoded_devices(payload) {
            Some(records) => Ok(records),
            None => Err(bare(Kind::Parse)),
        },
        Err(e) => Err(e),
    }
}

/// Completes a query on accounts from the outcome of fetching its request.
pub fn query_user_info(outcome: Option<RawResponse>) -> (records: Result<Vec<UserInfo>, Error>)
    ensures
        match records {
            Ok(list) => users_of(outcome) == Ok::<Seq<UserInfoView>, ErrorView>(users_view(list@)),
            Err(e) => users_of(outcome) == Err::<Seq<UserInfoView>, ErrorView>(e@),
        },
{
    match deliver(outcome) {
        Ok(payload) => decode_users(payload.as_str()),
        Err(e) => Err(e),
    }
}

/// Completes a query on devices from the outcome of fetching its request.
pub fn query_device_info(outcome: Option<RawResponse>) -> (records: Result<
    Vec<DeviceInfo>,
    Error,
>)
    ensures
        match records {
            Ok(list) => devices_of(outcome) == Ok::<Seq<DeviceInfoView>, ErrorView>(
                devices_view(list@),
            ),
            Err(e) => devices_of(outcome) == Err::<Seq<DeviceInfoView>, ErrorView>(e@),
        },
{
    match deliver(outcome) {
        Ok(payload) => decode_devices(payload.as_str()),
        Err(e) => Err(e),
    }
}

/// An answer with any status but 200 is a request failure that carries that
/// status: a query on accounts never succeeds on it.
pub proof fn lemma_users_of_rejects_status(response: RawResponse)
    requires
        response.status != STATUS_OK,
    ensures
        users_of(Some(response)) matches Err(e) && e.kind == Kind::Request && e.status == Some(
            response.status,
        ),
{
    lemma_status_rejected(response);
}

/// An answer with status 200 whose body wraps a payload comes to what the
/// payload decodes to, and to a parse failure where it decodes to nothing.
pub proof fn lemma_users_of_wrapped(response: RawResponse, inner: Seq<char>)
    requires
        response.status == STATUS_OK,
        response.body matches Some(text) && text@ == opening(CALLBACK@) + inner + seq![')'],
    ensures
        users_of(Some(response)) == match decoded_users(inner) {
            Some(made) => Ok::<Seq<UserInfoView>, ErrorView>(made),
            None => Err::<Seq<UserInfoView>, ErrorView>(bare(Kind::Parse)),
        },
{
    lemma_delivers_wrapped(response, inner);
}

/// A payload that is not one JSON array decodes to nothing, so it is a parse
/// failure and never a result made of some of its parts.
pub proof fn lemma_malformed_users(payload: Seq<char>)
    requires
        array_elements(payload) is None,
    ensures
        decoded_users(payload) is None,
{
}

/// An answer with any status but 200 is a request failure that carries that
/// status: a query on devices never succeeds on it.
pub proof fn lemma_devices_of_rejects_status(response: RawResponse)
    requires
        response.status != STATUS_OK,
    ensures
        devices_of(Some(response)) matches Err(e) && e.kind == Kind::Request && e.status == Some(
            response.status,
        ),
{
    lemma_status_rejected(response);
}

/// An answer with status 200 whose body wraps a payload comes to what the
/// payload decodes to, and to a parse failure where it decodes to nothing.
pub proof fn lemma_devices_of_wrapped(response: RawResponse, inner: Seq<char>)
    requires
        response.status == STATUS_OK,
        response.body matches Some(text) && text@ == opening(CALLBACK@) + inner + seq![')'],
    ensures
        devices_of(Some(response)) == match decoded_devices(inner) {
            Some(made) => Ok::<Seq<DeviceInfoView>, ErrorView>(made),
            None => Err::<Seq<DeviceInfoView>, ErrorView>(bare(Kind::Parse)),
        },
{
    lemma_delivers_wrapped(response, inner);
}

/// A payload that is not one JSON array decodes to nothing, so it is a parse
/// failure and never a result made of some of its parts.
pub proof fn lemma_malformed_devices(payload: Seq<char>)
    requires
        array_elements(payload) is None,
    ensures
        decoded_devices(payload) is None,
{
}

/// An answer with status 200 under another name than the callback's comes
/// to a parse failure, whatever stands between its parentheses: where the
/// callback's opening stands nowhere in the body, the body is handed on as
/// it came, and a text that ends in `)` is no JSON array.
pub proof fn lemma_users_of_other_name(response: RawResponse, name: Seq<char>, inner: Seq<char>)
    requires
        response.status == STATUS_OK,
        response.body matches Some(text) && text@ == opening(name) + inner + seq![')'],
        forall|k: int| !occurs_at(opening(name) + inner + seq![')'], opening(CALLBACK@), k),
    ensures
        users_of(Some(response)) == Err::<Seq<UserInfoView>, ErrorView>(bare(Kind::Parse)),
{
    let body = opening(name) + inner + seq![')'];
    lemma_mismatch_keeps_body(body, CALLBACK@);
    assert(body.last() == ')');
    lemma_unframed(body, '[', ']');
}

/// An answer with status 200 under another name than the callback's comes
/// to a parse failure, whatever stands between its parentheses: where the
/// callback's opening stands nowhere in the body, the body is handed on as
/// it came, and a text that ends in `)` is no JSON array.
pub proof fn lemma_devices_of_other_name(response: RawResponse, name: Seq<char>, inner: Seq<char>)
    requires
        response.status == STATUS_OK,
        response.body matches Some(text) && text@ == opening(name) + inner + seq![')'],
        forall|k: int| !occurs_at(opening(name) + inner + seq![')'], opening(CALLBACK@), k),
    ensures
        devices_of(Some(response)) == Err::<Seq<DeviceInfoView>, ErrorView>(bare(Kind::Parse)),
{
    let body = opening(name) + inner + seq![')'];
    lemma_mismatch_keeps_body(body, CALLBACK@);
    assert(body.last() == ')');
    lemma_unframed(body, '[', ']');
}

/// An empty array decodes to no records, which is a result and no failure.
pub proof fn lemma_empty_array(payload: Seq<char>)
    requires
        array_elements(payload) == Some(Seq::<Seq<char>>::empty()),
    ensures
        decoded_users(payload) == Some(Seq::<UserInfoView>::empty()),
        decoded_devices(payload) == Some(Seq::<DeviceInfoView>::empty()),
{
    assert(decoded_users(payload)->0 =~= Seq::<UserInfoView>::empty());
    assert(decoded_devices(payload)->0 =~= Seq::<DeviceInfoView>::empty());
}

} // verus!
