//! The calls the SDK makes to the Stackure API: what is sent, and what an
//! answer means.

use vstd::prelude::*;
use vstd::string::StringSliceAdditionalSpecFns;
use vstd::utf8::encode_utf8;

use crate::client::{client_ip, client_ip_of, cookie, cookie_of, SESSION_COOKIE};
use crate::codec::{
    bytes_of, header_byte_ok, header_value_ok, json_object, json_object_text, lossy_string,
    lossy_text, pair_views,
};
use crate::errors::{network, ErrorKind, StackureError};
use crate::request::{header, header_or_empty, header_views, Header, RequestHead};
use crate::text::{decimal, push_decimal, strip_char_end};
use crate::types::Session;
use crate::validation::{
    email_error, email_ok, uuid_malformed, uuid_required, uuid_shaped, validate_email,
    validate_uuid,
};

verus! {

/// The production API host.
pub const DEFAULT_BASE_URL: &'static str = "https://stackure.com";

/// Path of the magic-link endpoint.
pub const MAGIC_LINK_PATH: &'static str = "/api/public/auth/magic-link/send";

/// Path of the session-validation endpoint.
pub const VALIDATE_PATH: &'static str = "/api/public/auth/session/validate";

/// The HTTP method of an API call.
#[derive(Clone, Copy, Debug, PartialEq, Eq, Structural)]
pub enum ApiMethod {
    Get,
    Post,
}

/// One call to the Stackure API, before the app secret is added.
#[derive(Debug, Clone)]
pub struct ApiCall {
    /// The HTTP method.
    pub method: ApiMethod,
    /// The path on the API host.
    pub path: String,
    /// The query string, without the `?`.
    pub query: Option<String>,
    /// A JSON body.
    pub body: Option<Vec<u8>>,
    /// A session token to send as the session cookie; empty for none.
    pub token: String,
    /// The browser's `User-Agent`, forwarded; empty for none.
    pub user_agent: String,
    /// The browser's address, forwarded; empty for none.
    pub client_ip: String,
}

/// What session validation needs next: nothing, because the answer is
/// already known, or a call to the API.
#[derive(Debug, Clone)]
pub enum SessionStep {
    /// The session is known without asking Stackure.
    Known(Session),
    /// Stackure must be asked.
    Ask(ApiCall),
}

/// The API host from the `STACKURE_BASE_URL` setting: the set value with
/// trailing slashes removed, or production when unset or empty.
pub open spec fn base_url_of(setting: Option<Seq<char>>) -> Seq<char> {
    match setting {
        Some(v) => if v.len() > 0 {
            strip_char_end(v, '/')
        } else {
            DEFAULT_BASE_URL@
        },
        None => DEFAULT_BASE_URL@,
    }
}

/// Resolve the API host from the value of `STACKURE_BASE_URL`, if set.
pub fn base_url_from(setting: Option<String>) -> (url: String)
    ensures
        url@ == base_url_of(match setting {
            Some(v) => Some(v@),
            None => None,
        }),
{
    match setting {
        Some(v) => {
            if v.as_str().is_empty() {
                String::from_str(DEFAULT_BASE_URL)
            } else {
                let cs = crate::text::chars_of(v.as_str());
                let n = trailing_end(&cs);
                crate::text::string_of(&cs, 0, n)
            }
        },
        None => String::from_str(DEFAULT_BASE_URL),
    }
}

/// The length of `v` once trailing slashes are removed.
fn trailing_end(v: &Vec<char>) -> (n: usize)
    ensures
        n <= v.len(),
        v@.subrange(0, n as int) == strip_char_end(v@, '/'),
{
    let mut b: usize = v.len();
    assert(v@.subrange(0, b as int) =~= v@);
    while b > 0 && v[b - 1] == '/'
        invariant
            b <= v.len(),
            strip_char_end(v@, '/') == strip_char_end(v@.subrange(0, b as int), '/'),
        decreases b,
    {
        proof {
            let u = v@.subrange(0, b as int);
            assert(u.drop_last() =~= v@.subrange(0, b - 1));
        }
        b = b - 1;
    }
    b
}

/// The error an unset app secret gives.
pub open spec fn missing_secret() -> (ErrorKind, Seq<char>) {
    (ErrorKind::Validation, "STACKURE_APP_SECRET is not set"@)
}

/// The app secret from the value of `STACKURE_APP_SECRET`, if set.
pub fn app_secret_from(setting: Option<String>) -> (r: Result<String, StackureError>)
    ensures
        r is Ok <==> (setting matches Some(v) && v@.len() > 0),
        r matches Ok(s) ==> setting == Some(s),
        r matches Err(e) ==> e@ == missing_secret(),
{
    match setting {
        Some(v) => {
            if v.as_str().is_empty() {
                Err(crate::errors::validation("STACKURE_APP_SECRET is not set"))
            } else {
                Ok(v)
            }
        },
        None => Err(crate::errors::validation("STACKURE_APP_SECRET is not set")),
    }
}

/// The JSON body of a magic-link request: an object of the app ID, when
/// one is given, and the address.
pub open spec fn magic_link_body(email: Seq<char>, app_id: Option<Seq<char>>) -> Seq<char> {
    match app_id {
        Some(id) => json_object_text(seq![("app_id"@, id), ("user_email"@, email)]),
        None => json_object_text(seq![("user_email"@, email)]),
    }
}

/// The app ID a magic-link request names: a given, non-empty one.
pub open spec fn named_app(app_id: Option<&str>) -> Option<Seq<char>> {
    match app_id {
        Some(id) => if id@.len() > 0 {
            Some(id@)
        } else {
            None
        },
        None => None,
    }
}

/// Whether the app ID of a magic-link request is acceptable.
pub open spec fn app_id_acceptable(app_id: Option<&str>) -> bool {
    match app_id {
        Some(id) => id@.len() > 0 ==> uuid_shaped(id.spec_bytes()),
        None => true,
    }
}

/// A call with no session token or browser details.
pub open spec fn bare(c: ApiCall) -> bool {
    c.token@.len() == 0 && c.user_agent@.len() == 0 && c.client_ip@.len() == 0
}

fn magic_link_body_bytes(email: &str, app_id: Option<&str>) -> (b: Vec<u8>)
    requires
        app_id matches Some(id) ==> id@.len() > 0,
    ensures
        b@ == encode_utf8(magic_link_body(email@, named_app(app_id))),
{
    proof {
        reveal_strlit("app_id");
        reveal_strlit("user_email");
    }
    let mut pairs: Vec<(&str, &str)> = Vec::new();
    match app_id {
        Some(id) => {
            pairs.push(("app_id", id));
            pairs.push(("user_email", email));
            assert(pair_views(pairs@) =~= seq![("app_id"@, id@), ("user_email"@, email@)]);
        },
        None => {
            pairs.push(("user_email", email));
            assert(pair_views(pairs@) =~= seq![("user_email"@, email@)]);
        },
    }
    let text = json_object(pairs.as_slice());
    bytes_of(text.as_str())
}

/// Plan a passwordless sign-in email: validate the address and the app ID,
/// and describe the POST that sends it.
pub fn send_magic_link(email: &str, app_id: Option<&str>) -> (r: Result<ApiCall, StackureError>)
    ensures
        r is Ok <==> email_ok(email@) && app_id_acceptable(app_id),
        r matches Err(e) ==> e@ == (if !email_ok(email@) {
            (ErrorKind::Validation, email_error(email@))
        } else {
            (ErrorKind::Validation, uuid_malformed("App ID"@))
        }),
        r matches Ok(c) ==> {
            &&& c.method == ApiMethod::Post
            &&& c.path@ == MAGIC_LINK_PATH@
            &&& c.query is None
            &&& c.body matches Some(b) && b@ == encode_utf8(
                magic_link_body(email@, named_app(app_id)),
            )
            &&& bare(c)
        },
{
    validate_email(email)?;
    let named = match app_id {
        Some(id) => {
            if id.is_empty() {
                None
            } else {
                match validate_uuid(id, "App ID") {
                    Ok(()) => Some(id),
                    Err(e) => {
                        return Err(e);
                    },
                }
            }
        },
        None => None,
    };
    assert(named_app(named) == named_app(app_id));
    let body = magic_link_body_bytes(email, named);
    Ok(
        ApiCall {
            method: ApiMethod::Post,
            path: String::from_str(MAGIC_LINK_PATH),
            query: None,
            body: Some(body),
            token: String::new(),
            user_agent: String::new(),
            client_ip: String::new(),
        },
    )
}

/// Whether a session token is well-formed: any non-empty text. Every request
/// that carries one is validated with Stackure.
pub open spec fn token_well_formed(token: Seq<char>) -> bool {
    token.len() > 0
}

/// Where a request without a well-formed session token is sent to sign in.
pub open spec fn sign_in_url(base: Seq<char>, app_id: Seq<char>) -> Seq<char> {
    base + "/sign-in/magic-link?app_id="@ + app_id
}

/// What `validate_token` plans for a well-formed app ID.
pub open spec fn token_step_ok(
    step: SessionStep,
    app_id: Seq<char>,
    token: Seq<char>,
    req: RequestHead,
    base: Seq<char>,
) -> bool {
    if !token_well_formed(token) {
        step matches SessionStep::Known(s) && !s.authenticated && s.user is None
            && s.sign_in_url@ == sign_in_url(base, app_id)
    } else {
        step matches SessionStep::Ask(c) && {
            &&& c.method == ApiMethod::Get
            &&& c.path@ == VALIDATE_PATH@
            &&& c.query matches Some(q) && q@ == "app_id="@ + app_id
            &&& c.body is None
            &&& c.token@ == token
            &&& c.user_agent@ == header_or_empty(req, "user-agent"@)
            &&& c.client_ip@ == client_ip_of(req)
        }
    }
}

/// What validating the session `token` for the app `app_id` plans: an error
/// when the app ID is not a UUID, else [`token_step_ok`].
pub open spec fn planned(
    app_id: Seq<char>,
    token: Seq<char>,
    req: RequestHead,
    base: Seq<char>,
    r: Result<SessionStep, StackureError>,
) -> bool {
    &&& r is Ok <==> uuid_shaped(encode_utf8(app_id))
    &&& r matches Err(e) ==> e@ == (ErrorKind::Validation, if app_id.len() == 0 {
        uuid_required("App ID"@)
    } else {
        uuid_malformed("App ID"@)
    })
    &&& r matches Ok(step) ==> token_step_ok(step, app_id, token, req, base)
}

/// Plan validating an explicit session `token` for the browser that sent
/// `req`: an empty token gets the sign-in URL without a call; any other is
/// sent to Stackure.
pub fn validate_token(app_id: &str, token: &str, req: &RequestHead, base: &str) -> (r: Result<
    SessionStep,
    StackureError,
>)
    ensures
        planned(app_id@, token@, *req, base@, r),
{
    validate_uuid(app_id, "App ID")?;
    if token.is_empty() {
        let mut url = String::from_str(base);
        url.append("/sign-in/magic-link?app_id=");
        url.append(app_id);
        return Ok(
            SessionStep::Known(Session { authenticated: false, user: None, sign_in_url: url }),
        );
    }
    let mut q = String::from_str("app_id=");
    q.append(app_id);
    Ok(
        SessionStep::Ask(
            ApiCall {
                method: ApiMethod::Get,
                path: String::from_str(VALIDATE_PATH),
                query: Some(q),
                body: None,
                token: String::from_str(token),
                user_agent: req.header_or_empty("user-agent"),
                client_ip: client_ip(req),
            },
        ),
    )
}

/// Plan validating the request's session cookie.
pub fn validate_session(app_id: &str, req: &RequestHead, base: &str) -> (r: Result<
    SessionStep,
    StackureError,
>)
    ensures
        planned(app_id@, cookie_of(*req, SESSION_COOKIE@), *req, base@, r),
{
    let token = cookie(req, SESSION_COOKIE);
    validate_token(app_id, token.as_str(), req, base)
}

/// The URL of a call on the API host `base`.
pub open spec fn call_url_of(base: Seq<char>, c: ApiCall) -> Seq<char> {
    match c.query {
        Some(q) => base + c.path@ + "?"@ + q@,
        None => base + c.path@,
    }
}

/// The URL of `call` on the API host `base`.
pub fn call_url(base: &str, call: &ApiCall) -> (url: String)
    ensures
        url@ == call_url_of(base@, *call),
{
    let mut url = String::from_str(base);
    url.append(call.path.as_str());
    match &call.query {
        Some(q) => {
            url.append("?");
            url.append(q.as_str());
        },
        None => {},
    }
    url
}

/// Whether `http` takes `v` as a header value.
pub open spec fn header_text_ok(v: Seq<char>) -> bool {
    forall|i: int| 0 <= i < encode_utf8(v).len() ==> header_byte_ok(#[trigger] encode_utf8(v)[i])
}

/// A forwarded header: sent when its value is non-empty and a valid
/// header value.
pub open spec fn forwarded(name: Seq<char>, value: Seq<char>) -> Seq<(Seq<char>, Seq<char>)> {
    if value.len() > 0 && header_text_ok(value) {
        seq![(name, value)]
    } else {
        seq![]
    }
}

/// The cookie header a call carries: the session cookie, when there is a
/// token.
pub open spec fn session_cookie_text(token: Seq<char>) -> Seq<char> {
    if token.len() == 0 {
        Seq::empty()
    } else {
        SESSION_COOKIE@ + "="@ + token
    }
}

/// The headers a call is sent with.
pub open spec fn call_headers_of(c: ApiCall, secret: Seq<char>) -> Seq<(Seq<char>, Seq<char>)> {
    (if c.body is Some {
        seq![("content-type"@, "application/json"@)]
    } else {
        seq![]
    }) + seq![("x-app-secret"@, secret)] + forwarded("user-agent"@, c.user_agent@) + forwarded(
        "x-forwarded-for"@,
        c.client_ip@,
    ) + forwarded("cookie"@, session_cookie_text(c.token@))
}

fn push_forwarded(hs: &mut Vec<Header>, name: &str, value: &String)
    ensures
        header_views(final(hs)@) == header_views(old(hs)@) + forwarded(name@, value@),
{
    let ghost before = header_views(hs@);
    let text = value.as_str();
    if !text.is_empty() && header_value_ok(text) {
        assert(text.spec_bytes() == encode_utf8(value@));
        assert(header_text_ok(value@));
        assert(forwarded(name@, value@) == seq![(name@, value@)]);
        hs.push(header(name, value.clone()));
        assert(header_views(hs@) =~= before + forwarded(name@, value@));
    } else {
        assert(forwarded(name@, value@) =~= Seq::<(Seq<char>, Seq<char>)>::empty());
        assert(header_views(hs@) =~= before + forwarded(name@, value@));
    }
}

/// The headers `call` is sent with, given the app secret.
pub fn call_headers(call: &ApiCall, secret: &str) -> (hs: Vec<Header>)
    ensures
        header_views(hs@) == call_headers_of(*call, secret@),
{
    let mut hs: Vec<Header> = Vec::new();
    if call.body.is_some() {
        hs.push(header("content-type", String::from_str("application/json")));
    }
    hs.push(header("x-app-secret", String::from_str(secret)));
    assert(header_views(hs@) =~= (if call.body is Some {
        seq![("content-type"@, "application/json"@)]
    } else {
        seq![]
    }) + seq![("x-app-secret"@, secret@)]);
    push_forwarded(&mut hs, "user-agent", &call.user_agent);
    push_forwarded(&mut hs, "x-forwarded-for", &call.client_ip);
    let cookie_text = if call.token.as_str().is_empty() {
        String::new()
    } else {
        let mut c = String::from_str(SESSION_COOKIE);
        c.append("=");
        c.append(call.token.as_str());
        c
    };
    push_forwarded(&mut hs, "cookie", &cookie_text);
    hs
}

/// The error a non-2xx answer gives: 401 and 403 carry the body, or
/// `unknown error` when it is empty; anything else is a network error
/// naming the status.
pub open spec fn api_error(status: u16, text: Seq<char>) -> (ErrorKind, Seq<char>) {
    let body = if text.len() == 0 {
        "unknown error"@
    } else {
        text
    };
    if status == 401 {
        (ErrorKind::Auth, body)
    } else if status == 403 {
        (ErrorKind::Forbidden, body)
    } else {
        (ErrorKind::Network, "api error ("@ + decimal(status as nat) + "): "@ + body)
    }
}

/// Whether a status is a success.
pub open spec fn is_success(status: u16) -> bool {
    200 <= status < 300
}

/// Read an API answer: the body text on a 2xx, else the error it means.
pub fn handle_response(status: u16, body: &[u8]) -> (r: Result<String, StackureError>)
    ensures
        r is Ok <==> is_success(status),
        r matches Ok(t) ==> t@ == lossy_text(body@),
        r matches Err(e) ==> e@ == api_error(status, lossy_text(body@)),
{
    let text = lossy_string(body);
    if !(200 <= status && status < 300) {
        let shown = if text.as_str().is_empty() {
            String::from_str("unknown error")
        } else {
            text
        };
        if status == 401 {
            return Err(StackureError::Auth(shown));
        }
        if status == 403 {
            return Err(StackureError::Forbidden(shown));
        }
        let mut m = String::from_str("api error (");
        push_decimal(&mut m, status as u64);
        m.append("): ");
        m.append(shown.as_str());
        return Err(StackureError::Network(m));
    }
    Ok(text)
}

/// How reading an answer's JSON into a value went.
#[derive(Debug, Clone)]
pub enum Parsed<T> {
    /// The text was JSON of the expected shape.
    Value(T),
    /// The text was not JSON.
    NotJson,
    /// The text was JSON of another shape.
    WrongShape,
}

/// The result of reading an answer's JSON.
pub fn finish_parse<T>(p: Parsed<T>) -> (r: Result<T, StackureError>)
    ensures
        p matches Parsed::Value(v) ==> r == Ok::<T, StackureError>(v),
        p is NotJson ==> (r matches Err(e) && e@ == (
            ErrorKind::Network,
            "invalid JSON response from server"@,
        )),
        p is WrongShape ==> (r matches Err(e) && e@ == (
            ErrorKind::Network,
            "unexpected API response format"@,
        )),
{
    match p {
        Parsed::Value(v) => Ok(v),
        Parsed::NotJson => Err(network("invalid JSON response from server")),
        Parsed::WrongShape => Err(network("unexpected API response format")),
    }
}

} // verus!
