//! The remote API's data shapes, its request addresses, and the rule that
//! turns a response into either the parsed body or one error message.
use vstd::prelude::*;
use vstd::string::*;
use crate::json::{Json, Member, member, get_member};

verus! {

/// One entry of an envelope's `errors` list.
#[derive(Debug)]
pub struct ApiError {
    pub message: Option<String>,
}

/// The wrapper every response of the remote API comes in.
#[derive(Debug)]
pub struct Envelope<T> {
    pub success: Option<bool>,
    pub errors: Option<Vec<ApiError>>,
    pub result: Option<T>,
}

/// An account the token can see.
#[derive(Debug)]
pub struct Account {
    pub id: String,
    pub name: String,
}

/// One live connection of a tunnel.
#[derive(Debug)]
pub struct Connection {
    pub id: Option<String>,
    pub uuid: Option<String>,
    pub colo_name: Option<String>,
    pub origin_ip: Option<String>,
    pub client_version: Option<String>,
    pub opened_at: Option<String>,
    pub is_pending_reconnect: Option<bool>,
}

/// A tunnel of an account.
#[derive(Debug)]
pub struct Tunnel {
    pub id: String,
    pub name: String,
    pub status: Option<String>,
    pub created_at: Option<String>,
    pub metadata: Option<Json>,
    pub connections: Option<Vec<Connection>>,
}

/// A tunnel's configuration document.
#[derive(Debug)]
pub struct TunnelConfig {
    pub result: Option<Json>,
}

/// The message reported when a failed response names no error.
pub open spec fn fallback_message() -> Seq<char> {
    "request failed"@
}

pub open spec fn accounts_url_spec() -> Seq<char> {
    "https://api.cloudflare.com/client/v4/accounts"@
}

pub open spec fn tunnels_url_spec(account_id: Seq<char>) -> Seq<char> {
    "https://api.cloudflare.com/client/v4/accounts/"@ + account_id
        + "/cfd_tunnel?is_deleted=false"@
}

pub open spec fn tunnel_config_url_spec(account_id: Seq<char>, tunnel_id: Seq<char>) -> Seq<char> {
    "https://api.cloudflare.com/client/v4/accounts/"@ + account_id + "/cfd_tunnel/"@ + tunnel_id
        + "/configurations"@
}

/// HTTP statuses in the 2xx range.
pub open spec fn is_success_status(status: u16) -> bool {
    200 <= status <= 299
}

/// Whether `v`, as an optional field, reads as an optional boolean.
pub open spec fn optional_bool_ok(v: Option<Json>) -> bool {
    match v {
        None => true,
        Some(Json::Null) => true,
        Some(Json::Bool(_)) => true,
        _ => false,
    }
}

/// Whether `v`, as an optional field, reads as an optional string.
pub open spec fn optional_string_ok(v: Option<Json>) -> bool {
    match v {
        None => true,
        Some(Json::Null) => true,
        Some(Json::Str(_)) => true,
        _ => false,
    }
}

/// The `message` field of a value read as an error entry: an object's
/// member, or the single element of a one-element array. `None` when the
/// value has neither shape.
pub open spec fn entry_message_field(e: Json) -> Option<Option<Json>> {
    match e {
        Json::Object(m) => Some(member(m@, "message"@)),
        Json::Array(items) => if items@.len() == 1 {
            Some(Some(items@[0]))
        } else {
            None
        },
        _ => None,
    }
}

/// Whether `e` reads as an error entry.
pub open spec fn entry_ok(e: Json) -> bool {
    match entry_message_field(e) {
        Some(f) => optional_string_ok(f),
        None => false,
    }
}

/// The message an error entry carries, if any.
pub open spec fn entry_message(e: Json) -> Option<Seq<char>> {
    match entry_message_field(e) {
        Some(Some(Json::Str(s))) => Some(s@),
        _ => None,
    }
}

/// Whether `v`, as an optional field, reads as an optional list of error
/// entries.
pub open spec fn errors_ok(v: Option<Json>) -> bool {
    match v {
        None => true,
        Some(Json::Null) => true,
        Some(Json::Array(items)) => forall|i: int|
            0 <= i < items@.len() ==> #[trigger] entry_ok(items@[i]),
        _ => false,
    }
}

/// The `success` and `errors` fields of a body read as an envelope: an
/// object's members, or the first two elements of a three-element array.
pub open spec fn envelope_fields(body: Json) -> Option<(Option<Json>, Option<Json>)> {
    match body {
        Json::Object(m) => Some((member(m@, "success"@), member(m@, "errors"@))),
        Json::Array(items) => if items@.len() == 3 {
            Some((Some(items@[0]), Some(items@[1])))
        } else {
            None
        },
        _ => None,
    }
}

/// The error message a response body reports: the message of the first
/// entry of `errors`, when the body reads as an envelope (its `result`
/// may be anything) and that entry has one.
pub open spec fn reported_error(body: Json) -> Option<Seq<char>> {
    match envelope_fields(body) {
        Some((success, errors)) => if optional_bool_ok(success) && errors_ok(errors) {
            match errors {
                Some(Json::Array(items)) => if items@.len() > 0 {
                    entry_message(items@[0])
                } else {
                    None
                },
                _ => None,
            }
        } else {
            None
        },
        None => None,
    }
}

/// The one message a failed response is reported with.
pub open spec fn failure_message(body: Json) -> Seq<char> {
    match reported_error(body) {
        Some(m) => m,
        None => fallback_message(),
    }
}

/// Address of the account list.
pub fn accounts_url() -> (r: String)
    ensures
        r@ == accounts_url_spec(),
{
    String::from_str("https://api.cloudflare.com/client/v4/accounts")
}

/// Address of the tunnel list of an account, without deleted tunnels.
pub fn tunnels_url(account_id: &str) -> (r: String)
    ensures
        r@ == tunnels_url_spec(account_id@),
{
    let mut r = String::from_str("https://api.cloudflare.com/client/v4/accounts/");
    r.append(account_id);
    r.append("/cfd_tunnel?is_deleted=false");
    r
}

/// Address of a tunnel's configuration.
pub fn tunnel_config_url(account_id: &str, tunnel_id: &str) -> (r: String)
    ensures
        r@ == tunnel_config_url_spec(account_id@, tunnel_id@),
{
    let mut r = String::from_str("https://api.cloudflare.com/client/v4/accounts/");
    r.append(account_id);
    r.append("/cfd_tunnel/");
    r.append(tunnel_id);
    r.append("/configurations");
    r
}

fn optional_bool_check(v: Option<&Json>) -> (r: bool)
    ensures
        r == optional_bool_ok(match v { Some(j) => Some(*j), None => None }),
{
    match v {
        None => true,
        Some(Json::Null) => true,
        Some(Json::Bool(_)) => true,
        _ => false,
    }
}

fn entry_message_field_of(e: &Json) -> (r: Option<Option<&Json>>)
    ensures
        entry_message_field(*e) == match r {
            Some(Some(j)) => Some(Some(*j)),
            Some(None) => Some(None),
            None => None,
        },
{
    match e {
        Json::Object(m) => Some(get_member(m, "message")),
        Json::Array(items) => if items.len() == 1 {
            Some(Some(&items[0]))
        } else {
            None
        },
        _ => None,
    }
}

fn entry_check(e: &Json) -> (r: bool)
    ensures
        r == entry_ok(*e),
{
    match entry_message_field_of(e) {
        Some(None) => true,
        Some(Some(Json::Null)) => true,
        Some(Some(Json::Str(_))) => true,
        _ => false,
    }
}

fn entry_message_of(e: &Json) -> (r: Option<String>)
    ensures
        match r {
            Some(s) => entry_message(*e) == Some(s@),
            None => entry_message(*e) is None,
        },
{
    match entry_message_field_of(e) {
        Some(Some(Json::Str(s))) => Some(s.clone()),
        _ => None,
    }
}

fn envelope_fields_of(body: &Json) -> (r: Option<(Option<&Json>, Option<&Json>)>)
    ensures
        envelope_fields(*body) == match r {
            Some((a, b)) => Some(
                (
                    match a { Some(j) => Some(*j), None => None },
                    match b { Some(j) => Some(*j), None => None },
                ),
            ),
            None => None,
        },
{
    match body {
        Json::Object(m) => Some((get_member(m, "success"), get_member(m, "errors"))),
        Json::Array(items) => if items.len() == 3 {
            Some((Some(&items[0]), Some(&items[1])))
        } else {
            None
        },
        _ => None,
    }
}

/// The error message a response body reports, read as an envelope.
pub fn extract_error(body: &Json) -> (r: Option<String>)
    ensures
        match r {
            Some(s) => reported_error(*body) == Some(s@),
            None => reported_error(*body) is None,
        },
{
    let (success, errors) = match envelope_fields_of(body) {
        Some(f) => f,
        None => return None,
    };
    if !optional_bool_check(success) {
        return None;
    }
    match errors {
        None => None,
        Some(Json::Null) => None,
        Some(Json::Array(items)) => {
            let mut i: usize = 0;
            while i < items.len()
                invariant
                    0 <= i <= items@.len(),
                    envelope_fields(*body) matches Some((s, e)) && optional_bool_ok(s) && e == Some(
                        Json::Array(*items),
                    ),
                    forall|j: int| 0 <= j < i ==> #[trigger] entry_ok(items@[j]),
                decreases items@.len() - i,
            {
                if !entry_check(&items[i]) {
                    assert(!entry_ok(items@[i as int]));
                    return None;
                }
                i = i + 1;
            }
            if items.len() == 0 {
                None
            } else {
                entry_message_of(&items[0])
            }
        },
        _ => None,
    }
}

/// Settles a response: a 2xx status hands back the parsed body; any other
/// fails with the error the body reports, or with the fallback message.
/// `body_json` is the same body as a JSON value.
pub fn settle_response<T>(status: u16, body: T, body_json: &Json) -> (r: Result<T, String>)
    ensures
        is_success_status(status) ==> r == Ok::<T, String>(body),
        !is_success_status(status) ==> (r matches Err(e) && e@ == failure_message(*body_json)),
{
    if 200 <= status && status <= 299 {
        return Ok(body);
    }
    match extract_error(body_json) {
        Some(m) => Err(m),
        None => Err(String::from_str("request failed")),
    }
}

/// Makes sure a configuration carries a result: an absent one becomes an
/// empty object, a present one is kept.
pub fn with_config_result(config: TunnelConfig) -> (r: TunnelConfig)
    ensures
        config.result is Some ==> r == config,
        config.result is None ==> (r.result matches Some(Json::Object(m)) && m@.len() == 0),
{
    match config.result {
        Some(v) => TunnelConfig { result: Some(v) },
        None => TunnelConfig { result: Some(Json::Object(Vec::<Member>::new())) },
    }
}

} // verus!
