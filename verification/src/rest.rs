//! The Palworld REST API (the officially supported control channel). A base URL such as
//! `http://host:8212`; every call goes to `<base>/v1/api/<path>` with HTTP Basic auth
//! `admin:<AdminPassword>`. This module holds the client's state, the URLs it builds and
//! the messages it gives for failed calls; the requests themselves are sent by the caller.
use vstd::prelude::*;
use crate::text::{
    chars_of, decimal, push_all, push_decimal, push_str, string_of, strip_end_char,
    strip_end_char_end, sub_vec, trim, trim_bounds,
};

verus! {

broadcast use vstd::string::group_string_axioms;

#[verifier::external_type_specification]
#[verifier::external_body]
pub struct ExReqwestClient(reqwest::Client);

#[verifier::external_type_specification]
#[verifier::external_body]
pub struct ExReqwestError(reqwest::Error);

/// `reqwest::Client::new`: a client with the default configuration. Nothing is stated of
/// it; it is only carried to the code that sends requests. (Its documentation says it
/// panics when a TLS backend or the system resolver cannot be set up; this crate enables
/// neither a TLS backend nor a resolver that reads the system configuration.)
#[verifier::external_body]
fn http_client() -> (r: reqwest::Client) {
    reqwest::Client::new()
}

/// `reqwest::Error::is_timeout`: whether the failure was a timeout. It depends on the
/// error's inner cause, which Verus cannot see, so nothing is stated of it.
#[verifier::external_body]
fn error_is_timeout(e: &reqwest::Error) -> (r: bool) {
    e.is_timeout()
}

/// `reqwest::Error::is_connect`: whether the failure was in connecting. Nothing is stated
/// of it, for the same reason.
#[verifier::external_body]
fn error_is_connect(e: &reqwest::Error) -> (r: bool) {
    e.is_connect()
}

/// The `Display` text of a `reqwest::Error`. Nothing is stated of it.
#[verifier::external_body]
fn error_text(e: &reqwest::Error) -> (r: String) {
    e.to_string()
}

/// A REST client for one server.
pub struct RestClient {
    base: String,
    password: String,
    client: reqwest::Client,
}

/// `/v1/api/` under the base URL.
pub open spec fn api_url(base: Seq<char>, path: Seq<char>) -> Seq<char> {
    base + "/v1/api/"@ + path
}

impl RestClient {
    /// The base URL, without trailing slashes.
    pub closed spec fn base_view(&self) -> Seq<char> {
        self.base@
    }

    /// The admin password sent with every call.
    pub closed spec fn password_view(&self) -> Seq<char> {
        self.password@
    }

    /// The HTTP client this REST client sends its requests with.
    pub closed spec fn http_view(&self) -> reqwest::Client {
        self.client
    }

    /// A client for `base` (trailing slashes dropped) with the admin password `password`.
    pub fn new(base: &str, password: &str) -> (r: Self)
        ensures
            r.base_view() == strip_end_char(base@, '/'),
            r.password_view() == password@,
    {
        let cs = chars_of(base);
        let e = strip_end_char_end(&cs, '/');
        let b = sub_vec(&cs, 0, e);
        assert(b@ == cs@.take(e as int));
        RestClient { base: string_of(&b), password: String::from_str(password), client: http_client() }
    }

    /// The URL of the API endpoint `path`.
    pub fn url(&self, path: &str) -> (r: String)
        ensures
            r@ == api_url(self.base_view(), path@),
    {
        let mut m = chars_of(self.base.as_str());
        push_str(&mut m, "/v1/api/");
        push_str(&mut m, path);
        string_of(&m)
    }

    /// The admin password.
    pub fn password(&self) -> (r: &str)
        ensures
            r@ == self.password_view(),
    {
        self.password.as_str()
    }

    /// The HTTP client that sends the requests: the one this client was made with.
    pub fn client(&self) -> (r: &reqwest::Client)
        ensures
            *r == self.http_view(),
    {
        &self.client
    }
}

pub open spec fn msg_rest_auth() -> Seq<char> {
    "REST auth failed (401) — check the Admin Password"@
}

pub open spec fn msg_rest_forbidden() -> Seq<char> {
    "REST forbidden (403)"@
}

/// The message for an HTTP status `code` that is not a success, from endpoint `path`.
pub open spec fn rest_error_spec(code: u16, path: Seq<char>) -> Seq<char> {
    if code == 401 {
        msg_rest_auth()
    } else if code == 403 {
        msg_rest_forbidden()
    } else if code == 404 {
        "REST endpoint /"@ + path + " not found (404) — is the REST API enabled on this build?"@
    } else {
        "REST "@ + decimal(code as nat) + " on /"@ + path
    }
}

/// The message for a failed HTTP status.
pub fn rest_error(code: u16, path: &str) -> (r: String)
    ensures
        r@ == rest_error_spec(code, path@),
{
    if code == 401 {
        return String::from_str("REST auth failed (401) — check the Admin Password");
    }
    if code == 403 {
        return String::from_str("REST forbidden (403)");
    }
    let mut m: Vec<char> = Vec::new();
    if code == 404 {
        push_str(&mut m, "REST endpoint /");
        push_str(&mut m, path);
        push_str(&mut m, " not found (404) — is the REST API enabled on this build?");
    } else {
        push_str(&mut m, "REST ");
        push_decimal(&mut m, code as u64);
        push_str(&mut m, " on /");
        push_str(&mut m, path);
    }
    string_of(&m)
}

/// The message for a failed POST: the status message, then the response body (trimmed)
/// after ` — ` when it is not blank.
pub open spec fn post_failure_spec(code: u16, path: Seq<char>, body: Seq<char>) -> Seq<char> {
    if trim(body).len() == 0 {
        rest_error_spec(code, path)
    } else {
        rest_error_spec(code, path) + " — "@ + trim(body)
    }
}

/// The message for a failed POST.
pub fn post_failure_message(code: u16, path: &str, body: &str) -> (r: String)
    ensures
        r@ == post_failure_spec(code, path@, body@),
{
    let head = rest_error(code, path);
    let bc = chars_of(body);
    let (x, y) = trim_bounds(&bc, 0, bc.len());
    assert(bc@.subrange(0, bc@.len() as int) == bc@);
    if x == y {
        return head;
    }
    let mut m = chars_of(head.as_str());
    push_str(&mut m, " — ");
    let t = sub_vec(&bc, x, y);
    push_all(&mut m, &t);
    string_of(&m)
}

pub open spec fn msg_rest_timeout() -> Seq<char> {
    "REST timed out — server may be down, mid-save, or the port isn't reachable"@
}

pub open spec fn msg_rest_unreachable() -> Seq<char> {
    "Can't reach the REST API — check the URL/port and that it's enabled + open in the firewall"@
}

/// The message for a request that failed before a status came back: a timeout, a failed
/// connection, or else the error's own text.
pub open spec fn transport_failure_spec(timed_out: bool, connect: bool, text: Seq<char>) -> Seq<
    char,
> {
    if timed_out {
        msg_rest_timeout()
    } else if connect {
        msg_rest_unreachable()
    } else {
        text
    }
}

/// The message for a transport failure, from what the error says of itself.
pub fn transport_failure_message(timed_out: bool, connect: bool, text: String) -> (r: String)
    ensures
        r@ == transport_failure_spec(timed_out, connect, text@),
{
    if timed_out {
        String::from_str("REST timed out — server may be down, mid-save, or the port isn't reachable")
    } else if connect {
        String::from_str(
            "Can't reach the REST API — check the URL/port and that it's enabled + open in the firewall",
        )
    } else {
        text
    }
}

/// The message for a `reqwest` error: what the error says of itself (timeout, failed
/// connection, its text) goes to `transport_failure_message`, which decides.
pub fn friendly(e: &reqwest::Error) -> (r: String) {
    let timed_out = error_is_timeout(e);
    let connect = error_is_connect(e);
    let text = error_text(e);
    transport_failure_message(timed_out, connect, text)
}

} // verus!
