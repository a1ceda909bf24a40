//! Session verification and the decisions of the authentication layer.

use vstd::prelude::*;
use vstd::utf8::encode_utf8;

use crate::client::{
    after, before, cookie, cookie_of, form_in, form_value, holds, query_param, query_param_of,
    SESSION_COOKIE, TOKEN_PARAM,
};
use crate::codec::{
    bytes_of, json_object, json_object_text, lossy_string, lossy_text, pair_views, status_code_ok,
};
use crate::api::{planned, validate_session, validate_token, SessionStep};
use crate::errors::StackureError;
use crate::request::{header, header_or_empty, header_text, header_views, Header, RequestHead};
use crate::text::{
    chars_of, contains_chars, contains_seq, find_char, join_strs, join_vecs,
    lemma_first_index, push_signed_decimal, seq_join, signed_decimal, starts_with,
    starts_with_chars, str_views, sub_chars, vec_views,
};
use crate::types::{Session, User, VerifyError, VerifyResult};

verus! {

/// The largest handoff form body, in bytes, that is read for a token.
pub const MAX_HANDOFF_BODY: usize = 4096;

/// A response the layer answers with instead of calling the app.
#[derive(Debug, Clone)]
pub struct Reply {
    /// The HTTP status.
    pub status: u16,
    /// The headers, in order.
    pub headers: Vec<Header>,
    /// The body.
    pub body: Vec<u8>,
}

/// Whether the user holds one of the wanted permissions.
pub open spec fn holds_one_of(held: Seq<String>, wanted: Seq<Seq<char>>) -> bool {
    exists|i: int, j: int|
        0 <= i < wanted.len() && 0 <= j < held.len() && #[trigger] wanted[i] == #[trigger] held[j]@
}

/// The message of a refusal for want of a permission.
pub open spec fn denied_message(wanted: Seq<Seq<char>>) -> Seq<char> {
    "Requires one of: "@ + seq_join(wanted, ", "@)
}

/// Whether `e` is the error with this code, message and sign-in URL.
pub open spec fn error_is(e: Option<VerifyError>, code: u16, message: Seq<char>, url: Seq<char>) -> bool {
    e matches Some(x) && x.code == code && x.message@ == message && x.sign_in_url@ == url
}

/// What verification concludes from the session lookup's outcome and the
/// permissions the route wants (any one of them suffices; none wanted means
/// any signed-in user).
pub open spec fn verdict(
    outcome: Result<Session, StackureError>,
    wanted: Seq<Seq<char>>,
    r: VerifyResult,
) -> bool {
    match outcome {
        Err(_) => !r.authenticated && r.user is None && error_is(
            r.error,
            500,
            "Authentication verification failed"@,
            Seq::empty(),
        ),
        Ok(s) => if !s.authenticated || s.user is None {
            !r.authenticated && r.user is None && error_is(
                r.error,
                401,
                "Valid authentication required"@,
                s.sign_in_url@,
            )
        } else if wanted.len() > 0 && !holds_one_of(s.user->0.user_permissions@, wanted) {
            !r.authenticated && r.user == s.user && error_is(
                r.error,
                403,
                denied_message(wanted),
                Seq::empty(),
            )
        } else {
            r.authenticated && r.user == s.user && r.error is None
        },
    }
}

fn holds_one(held: &Vec<String>, wanted: &[&str]) -> (b: bool)
    ensures
        b == holds_one_of(held@, str_views(wanted@)),
{
    let mut i: usize = 0;
    while i < wanted.len()
        invariant
            0 <= i <= wanted@.len(),
            forall|a: int, c: int|
                0 <= a < i && 0 <= c < held@.len() ==> #[trigger] wanted@[a]@ != #[trigger] held@[c]@,
        decreases wanted@.len() - i,
    {
        let w = String::from_str(wanted[i]);
        let mut j: usize = 0;
        while j < held.len()
            invariant
                0 <= i < wanted@.len(),
                0 <= j <= held@.len(),
                w@ == wanted@[i as int]@,
                str_views(wanted@)[i as int] == wanted@[i as int]@,
                forall|a: int, c: int|
                    0 <= a < i && 0 <= c < held@.len() ==> #[trigger] wanted@[a]@
                        != #[trigger] held@[c]@,
                forall|c: int| 0 <= c < j ==> wanted@[i as int]@ != #[trigger] held@[c]@,
            decreases held@.len() - j,
        {
            if held[j].eq(&w) {
                assert(str_views(wanted@)[i as int] == held@[j as int]@);
                return true;
            }
            j = j + 1;
        }
        i = i + 1;
    }
    false
}

/// Conclude a verification from the outcome of the session lookup.
///
/// Never fails: a failed lookup is a 500, a missing or unknown session a
/// 401 with the sign-in URL, and a user without any of the wanted
/// permissions a 403 that still carries the user.
pub fn verify(outcome: Result<Session, StackureError>, permissions: &[&str]) -> (r: VerifyResult)
    ensures
        verdict(outcome, str_views(permissions@), r),
{
    let session = match outcome {
        Ok(session) => session,
        Err(_) => {
            return VerifyResult {
                authenticated: false,
                user: None,
                error: Some(
                    VerifyError {
                        code: 500,
                        message: String::from_str("Authentication verification failed"),
                        sign_in_url: String::new(),
                    },
                ),
            };
        },
    };
    if !session.authenticated || session.user.is_none() {
        return VerifyResult {
            authenticated: false,
            user: None,
            error: Some(
                VerifyError {
                    code: 401,
                    message: String::from_str("Valid authentication required"),
                    sign_in_url: session.sign_in_url,
                },
            ),
        };
    }
    let user = session.user.unwrap();
    if permissions.len() > 0 && !holds_one(&user.user_permissions, permissions) {
        let mut message = String::from_str("Requires one of: ");
        let list = join_strs(permissions, ", ");
        message.append(list.as_str());
        return VerifyResult {
            authenticated: false,
            user: Some(user),
            error: Some(VerifyError { code: 403, message, sign_in_url: String::new() }),
        };
    }
    VerifyResult { authenticated: true, user: Some(user), error: None }
}

/// The user the auth layer attached to the request, or `None` if the
/// request was not authenticated.
pub fn user_from_request(req: &RequestHead) -> (u: Option<&User>)
    ensures
        u is None <==> req.user is None,
        u matches Some(x) ==> req.user == Some(*x),
{
    req.user.as_ref()
}

/// ASCII lowercasing of one character.
pub open spec fn ascii_lower(c: char) -> char {
    if 'A' <= c <= 'Z' {
        ((c as u32) + 32) as char
    } else {
        c
    }
}

/// Equality ignoring ASCII case.
pub open spec fn eq_ignore_ascii_case(a: Seq<char>, b: Seq<char>) -> bool {
    a.len() == b.len() && forall|i: int| 0 <= i < a.len() ==> ascii_lower(#[trigger] a[i]) == ascii_lower(b[i])
}

fn lower(c: char) -> (l: char)
    ensures
        l == ascii_lower(c),
{
    if 'A' <= c && c <= 'Z' {
        ((c as u8) + 32) as char
    } else {
        c
    }
}

fn same_ignoring_case(a: &Vec<char>, b: &Vec<char>) -> (r: bool)
    ensures
        r == eq_ignore_ascii_case(a@, b@),
{
    if a.len() != b.len() {
        return false;
    }
    let mut i: usize = 0;
    while i < a.len()
        invariant
            a@.len() == b@.len(),
            0 <= i <= a@.len(),
            forall|j: int| 0 <= j < i ==> ascii_lower(#[trigger] a@[j]) == ascii_lower(b@[j]),
        decreases a@.len() - i,
    {
        if lower(a[i]) != lower(b[i]) {
            return false;
        }
        i = i + 1;
    }
    true
}

/// Whether the request arrived over TLS as far as the request shows: an
/// `https` URI scheme, or `X-Forwarded-Proto: https` in any case.
pub open spec fn is_https_of(req: RequestHead) -> bool {
    ||| (req.scheme matches Some(s) && s@ == "https"@)
    ||| (header_text(req, "x-forwarded-proto"@) matches Some(v) && eq_ignore_ascii_case(
        v,
        "https"@,
    ))
}

/// Whether the request arrived over TLS.
pub fn is_https(req: &RequestHead) -> (b: bool)
    ensures
        b == is_https_of(*req),
{
    let https = String::from_str("https");
    let by_scheme = match &req.scheme {
        Some(s) => s.eq(&https),
        None => false,
    };
    if by_scheme {
        return true;
    }
    match req.header("x-forwarded-proto") {
        Some(v) => same_ignoring_case(&chars_of(v.as_str()), &chars_of("https")),
        None => false,
    }
}

/// The `Set-Cookie` value that stores `value` as the session cookie.
pub open spec fn cookie_header_of(value: Seq<char>, secure: bool, max_age: Option<i32>) -> Seq<char> {
    SESSION_COOKIE@ + "="@ + value + "; Path=/; HttpOnly; SameSite=Lax"@ + (if secure {
        "; Secure"@
    } else {
        Seq::empty()
    }) + match max_age {
        Some(age) => "; Max-Age="@ + signed_decimal(age as int),
        None => Seq::empty(),
    }
}

/// The `Set-Cookie` value that stores `value` as the session cookie,
/// `Secure` when asked, and with a `Max-Age` when given.
pub fn cookie_header(value: &str, secure: bool, max_age: Option<i32>) -> (s: String)
    ensures
        s@ == cookie_header_of(value@, secure, max_age),
{
    let mut s = String::from_str(SESSION_COOKIE);
    s.append("=");
    s.append(value);
    s.append("; Path=/; HttpOnly; SameSite=Lax");
    if secure {
        s.append("; Secure");
    }
    match max_age {
        Some(age) => {
            s.append("; Max-Age=");
            push_signed_decimal(&mut s, age as i64);
        },
        None => {},
    }
    s
}

/// A query pair that survives the clean-up: not empty, and not named
/// `session_token`.
pub open spec fn keep_pair(p: Seq<char>) -> bool {
    p.len() > 0 && (!holds(p, '=') || before(p, '=') != TOKEN_PARAM@)
}

/// The pairs of a query string that the clean-up keeps, in order.
pub open spec fn kept_pairs(s: Seq<char>) -> Seq<Seq<char>>
    decreases s.len(),
{
    let p = before(s, '&');
    let rest = if holds(s, '&') {
        proof {
            lemma_first_index(s, '&');
        }
        kept_pairs(after(s, '&'))
    } else {
        Seq::empty()
    };
    if keep_pair(p) {
        seq![p] + rest
    } else {
        rest
    }
}

/// The request's URL without the `session_token` query parameter.
pub open spec fn clean_url_of(req: RequestHead) -> Seq<char> {
    let q = match req.query {
        Some(q) => q@,
        None => Seq::empty(),
    };
    let kept = kept_pairs(q);
    if kept.len() == 0 {
        req.path@
    } else {
        req.path@ + "?"@ + seq_join(kept, "&"@)
    }
}

fn keep(p: &Vec<char>) -> (b: bool)
    ensures
        b == keep_pair(p@),
{
    if p.len() == 0 {
        return false;
    }
    let k = find_char(p, '=', 0);
    assert(p@.subrange(0, p@.len() as int) =~= p@);
    if k == p.len() {
        return true;
    }
    let key = sub_chars(p, 0, k);
    assert(key@ =~= before(p@, '='));
    !crate::text::same_chars(&key, &chars_of(TOKEN_PARAM))
}

/// The request's path and query without the `session_token` parameter.
pub fn clean_url(req: &RequestHead) -> (url: String)
    ensures
        url@ == clean_url_of(*req),
{
    let query = match &req.query {
        Some(q) => chars_of(q.as_str()),
        None => Vec::new(),
    };
    let n = query.len();
    let mut kept: Vec<Vec<char>> = Vec::new();
    let mut start: usize = 0;
    assert(query@.subrange(0, n as int) =~= query@);
    loop
        invariant_except_break
            kept_pairs(query@) == vec_views(kept@) + kept_pairs(query@.subrange(start as int, n as int)),
        invariant
            0 <= start <= n == query@.len(),
            query@ == (match req.query {
                Some(q) => q@,
                None => Seq::<char>::empty(),
            }),
        ensures
            kept_pairs(query@) == vec_views(kept@),
        decreases n - start,
    {
        let ghost s = query@.subrange(start as int, n as int);
        let ghost before_kept = vec_views(kept@);
        let e = find_char(&query, '&', start);
        let pair = sub_chars(&query, start, e);
        assert(pair@ =~= before(s, '&'));
        proof {
            lemma_first_index(s, '&');
        }
        let keep_it = keep(&pair);
        if keep_it {
            kept.push(pair);
        }
        let ghost taken: Seq<Seq<char>> = if keep_it {
            seq![before(s, '&')]
        } else {
            Seq::empty()
        };
        assert(vec_views(kept@) =~= before_kept + taken);
        if e == n {
            assert(kept_pairs(s) =~= taken);
            break;
        }
        assert(after(s, '&') =~= query@.subrange(e + 1, n as int));
        start = e + 1;
    }
    let mut url = req.path.clone();
    if kept.len() > 0 {
        url.append("?");
        let joined = join_vecs(&kept, "&");
        url.append(joined.as_str());
    }
    url
}

/// Whether the request may carry a handoff token in a form body: a POST of
/// a URL-encoded form, from a browser without a session cookie yet.
pub open spec fn wants_form_token_of(req: RequestHead) -> bool {
    &&& req.method@ == "POST"@
    &&& cookie_of(req, SESSION_COOKIE@).len() == 0
    &&& header_text(req, "content-type"@) matches Some(v) && starts_with(
        v,
        "application/x-www-form-urlencoded"@,
    )
}

/// Whether the request may carry a handoff token in a form body.
pub fn wants_form_token(req: &RequestHead) -> (b: bool)
    ensures
        b == wants_form_token_of(*req),
{
    let post = String::from_str("POST");
    if !req.method.eq(&post) {
        return false;
    }
    if !cookie(req, SESSION_COOKIE).as_str().is_empty() {
        return false;
    }
    match req.header("content-type") {
        Some(v) => starts_with_chars(
            &chars_of(v.as_str()),
            &chars_of("application/x-www-form-urlencoded"),
        ),
        None => false,
    }
}

/// Whether the request comes from a browser: its `Accept` header names
/// `text/html` and not `application/json`.
pub open spec fn accepts_html_of(req: RequestHead) -> bool {
    let accept = header_or_empty(req, "accept"@);
    contains_seq(accept, "text/html"@) && !contains_seq(accept, "application/json"@)
}

/// Whether the request comes from a browser.
pub fn accepts_html(req: &RequestHead) -> (b: bool)
    ensures
        b == accepts_html_of(*req),
{
    let accept = chars_of(req.header_or_empty("accept").as_str());
    contains_chars(&accept, &chars_of("text/html")) && !contains_chars(
        &accept,
        &chars_of("application/json"),
    )
}

/// The label of an error code in a JSON refusal.
pub open spec fn error_label(code: u16) -> Seq<char> {
    if code == 401 {
        "Unauthorized"@
    } else if code == 403 {
        "Forbidden"@
    } else {
        "Error"@
    }
}

/// The JSON text of a refusal: an object of its label, message and sign-in
/// URL.
pub open spec fn error_json(e: VerifyError) -> Seq<char> {
    json_object_text(
        seq![
            ("error"@, error_label(e.code)),
            ("message"@, e.message@),
            ("sign_in_url"@, e.sign_in_url@),
        ],
    )
}

/// The JSON body of a refusal.
pub fn error_body(error: &VerifyError) -> (b: Vec<u8>)
    ensures
        b@ == encode_utf8(error_json(*error)),
{
    let label = if error.code == 401 {
        "Unauthorized"
    } else if error.code == 403 {
        "Forbidden"
    } else {
        "Error"
    };
    proof {
        reveal_strlit("Unauthorized");
        reveal_strlit("Forbidden");
        reveal_strlit("Error");
        reveal_strlit("error");
        reveal_strlit("message");
        reveal_strlit("sign_in_url");
    }
    let mut pairs: Vec<(&str, &str)> = Vec::new();
    pairs.push(("error", label));
    pairs.push(("message", error.message.as_str()));
    pairs.push(("sign_in_url", error.sign_in_url.as_str()));
    assert(pair_views(pairs@) =~= seq![
        ("error"@, error_label(error.code)),
        ("message"@, error.message@),
        ("sign_in_url"@, error.sign_in_url@),
    ]);
    let text = json_object(pairs.as_slice());
    bytes_of(text.as_str())
}

/// Whether `r` answers with `status`, exactly `headers`, and an empty body.
pub open spec fn bare_reply(r: Reply, status: u16, headers: Seq<(Seq<char>, Seq<char>)>) -> bool {
    r.status == status && header_views(r.headers@) == headers && r.body@.len() == 0
}

/// Clear the app's session cookie and send the browser to Stackure's
/// sign-out on the API host `base`, which revokes the session.
pub fn logout(req: &RequestHead, base: &str) -> (r: Reply)
    ensures
        bare_reply(
            r,
            303,
            seq![
                ("location"@, base@ + "/signout"@),
                ("set-cookie"@, cookie_header_of(Seq::empty(), is_https_of(*req), Some(0i32))),
            ],
        ),
{
    let mut location = String::from_str(base);
    location.append("/signout");
    proof {
        reveal_strlit("");
    }
    let set_cookie = cookie_header("", is_https(req), Some(0));
    let mut headers: Vec<Header> = Vec::new();
    headers.push(header("location", location));
    headers.push(header("set-cookie", set_cookie));
    let r = Reply { status: 303, headers, body: Vec::new() };
    assert(header_views(r.headers@) =~= seq![
        ("location"@, base@ + "/signout"@),
        ("set-cookie"@, cookie_header_of(Seq::empty(), is_https_of(*req), Some(0i32))),
    ]);
    r
}

/// The handoff token in the request's query, or `""`.
pub fn handoff_token(req: &RequestHead) -> (t: String)
    ensures
        t@ == query_param_of(*req, TOKEN_PARAM@),
{
    query_param(req, TOKEN_PARAM)
}

/// The handoff token in a form body, or `""`; bodies over
/// [`MAX_HANDOFF_BODY`] bytes are ignored.
pub fn form_token(body: &[u8]) -> (t: String)
    ensures
        body@.len() > MAX_HANDOFF_BODY ==> t@.len() == 0,
        body@.len() <= MAX_HANDOFF_BODY ==> t@ == form_in(lossy_text(body@), TOKEN_PARAM@),
{
    if body.len() > MAX_HANDOFF_BODY {
        return String::new();
    }
    let text = lossy_string(body);
    form_value(text.as_str(), TOKEN_PARAM)
}

/// Complete the sign-in handoff: store `token` as the session cookie and
/// send the browser to the same URL without the token.
pub fn handoff(req: &RequestHead, token: &str) -> (r: Reply)
    ensures
        bare_reply(
            r,
            303,
            seq![
                ("location"@, clean_url_of(*req)),
                ("set-cookie"@, cookie_header_of(token@, is_https_of(*req), None)),
            ],
        ),
{
    let location = clean_url(req);
    let set_cookie = cookie_header(token, is_https(req), None);
    let mut headers: Vec<Header> = Vec::new();
    headers.push(header("location", location));
    headers.push(header("set-cookie", set_cookie));
    let r = Reply { status: 303, headers, body: Vec::new() };
    assert(header_views(r.headers@) =~= seq![
        ("location"@, clean_url_of(*req)),
        ("set-cookie"@, cookie_header_of(token@, is_https_of(*req), None)),
    ]);
    r
}

/// Whether the validation of a handoff token found a signed-in user.
pub open spec fn handoff_valid(outcome: Result<Session, StackureError>) -> bool {
    outcome matches Ok(s) && s.authenticated && s.user is Some
}

/// Complete the sign-in handoff once `token` has been validated: a token
/// that Stackure accepted is stored and the browser redirected; an invalid
/// token, or one whose validation failed, is ignored (`None`).
pub fn checked_handoff(
    req: &RequestHead,
    token: &str,
    outcome: &Result<Session, StackureError>,
) -> (r: Option<Reply>)
    ensures
        r is Some <==> handoff_valid(*outcome),
        r matches Some(x) ==> bare_reply(
            x,
            303,
            seq![
                ("location"@, clean_url_of(*req)),
                ("set-cookie"@, cookie_header_of(token@, is_https_of(*req), None)),
            ],
        ),
{
    match outcome {
        Ok(s) => {
            if s.authenticated && s.user.is_some() {
                Some(handoff(req, token))
            } else {
                None
            }
        },
        Err(_) => None,
    }
}

/// The status a refusal is sent with: its code when that is a valid HTTP
/// status, else 401.
pub open spec fn refusal_status(code: u16) -> u16 {
    if 100 <= code <= 999 {
        code
    } else {
        401
    }
}

/// How the layer answers a verification that did not authenticate, or
/// `None` when the request goes on to the app.
pub open spec fn rejection_of(req: RequestHead, result: VerifyResult, r: Option<Reply>) -> bool {
    match result.error {
        Some(e) => if result.authenticated {
            r is None
        } else if e.code == 401 && accepts_html_of(req) && e.sign_in_url@.len() > 0 {
            r matches Some(x) && bare_reply(x, 302, seq![("location"@, e.sign_in_url@)])
        } else {
            r matches Some(x) && x.status == refusal_status(e.code) && header_views(x.headers@)
                == seq![("content-type"@, "application/json"@)] && x.body@ == encode_utf8(
                error_json(e),
            )
        },
        None => r is None,
    }
}

/// How the layer answers an unauthenticated request: browsers are sent to
/// sign in on a 401, everything else gets a JSON error.
pub fn rejection(req: &RequestHead, result: &VerifyResult) -> (r: Option<Reply>)
    ensures
        rejection_of(*req, *result, r),
{
    match &result.error {
        Some(e) => {
            if result.authenticated {
                return None;
            }
            if e.code == 401 && accepts_html(req) && !e.sign_in_url.as_str().is_empty() {
                let mut headers: Vec<Header> = Vec::new();
                headers.push(header("location", e.sign_in_url.clone()));
                let r = Reply { status: 302, headers, body: Vec::new() };
                assert(header_views(r.headers@) =~= seq![("location"@, e.sign_in_url@)]);
                return Some(r);
            }
            let status = if status_code_ok(e.code) {
                e.code
            } else {
                401
            };
            let mut headers: Vec<Header> = Vec::new();
            headers.push(header("content-type", String::from_str("application/json")));
            let r = Reply { status, headers, body: error_body(e) };
            assert(header_views(r.headers@) =~= seq![("content-type"@, "application/json"@)]);
            Some(r)
        },
        None => None,
    }
}

/// Where the authentication of one request stands.
#[derive(Debug, Clone)]
pub enum AuthStage {
    /// The request has not been looked at yet.
    Start,
    /// The form body is being read for a handoff token.
    AwaitBody,
    /// This handoff token is being validated.
    AwaitToken(String),
    /// The request's session is being looked up.
    AwaitSession,
    /// The request has been answered or passed on.
    Done,
}

/// What the caller reports to the authentication steps.
#[derive(Debug)]
pub enum AuthEvent {
    /// The request's head has arrived.
    Arrived,
    /// The request's body, read in full.
    BodyRead(Vec<u8>),
    /// The outcome of validating the handoff token.
    TokenChecked(Result<Session, StackureError>),
    /// The outcome of looking up the request's session.
    SessionFound(Result<Session, StackureError>),
}

/// What the caller does next.
#[derive(Debug)]
pub enum AuthAction {
    /// Read the request's body, keep it for the app, and report
    /// [`AuthEvent::BodyRead`].
    ReadBody,
    /// Validate this handoff token and report [`AuthEvent::TokenChecked`].
    CheckToken(String),
    /// Look up the request's session and report [`AuthEvent::SessionFound`].
    LookUpSession,
    /// Answer with this reply; the app is not called.
    Answer(Reply),
    /// The verification is over: answer with `reply` when there is one, else
    /// pass the request to the app with `result.user` attached.
    Conclude {
        /// The verification's result.
        result: VerifyResult,
        /// The refusal to answer with, if any.
        reply: Option<Reply>,
    },
}

/// Whether `event` is what `stage` waits for.
pub open spec fn event_fits(stage: AuthStage, event: AuthEvent) -> bool {
    match (stage, event) {
        (AuthStage::Start, AuthEvent::Arrived) => true,
        (AuthStage::AwaitBody, AuthEvent::BodyRead(_)) => true,
        (AuthStage::AwaitToken(_), AuthEvent::TokenChecked(_)) => true,
        (AuthStage::AwaitSession, AuthEvent::SessionFound(_)) => true,
        _ => false,
    }
}

/// The step taken once a handoff token `t` (possibly empty) is known:
/// validate a non-empty one, else look the session up.
pub open spec fn after_token(t: Seq<char>, next: (AuthStage, AuthAction)) -> bool {
    if t.len() > 0 {
        &&& next.0 matches AuthStage::AwaitToken(x) && x@ == t
        &&& next.1 matches AuthAction::CheckToken(y) && y@ == t
    } else {
        next.0 is AwaitSession && next.1 is LookUpSession
    }
}

/// The handoff token of a form body: none when the body is over
/// [`MAX_HANDOFF_BODY`] bytes.
pub open spec fn body_token(body: Seq<u8>) -> Seq<char> {
    if body.len() > MAX_HANDOFF_BODY {
        Seq::empty()
    } else {
        form_in(lossy_text(body), TOKEN_PARAM@)
    }
}

/// The step after a handoff token was validated: an accepted token is
/// stored with a redirect, else the session is looked up.
pub open spec fn token_checked_step(
    req: RequestHead,
    stage: AuthStage,
    o: Result<Session, StackureError>,
    next: (AuthStage, AuthAction),
) -> bool {
    match stage {
        AuthStage::AwaitToken(t) => if handoff_valid(o) {
            &&& next.0 is Done
            &&& next.1 matches AuthAction::Answer(x) && bare_reply(
                x,
                303,
                seq![
                    ("location"@, clean_url_of(req)),
                    ("set-cookie"@, cookie_header_of(t@, is_https_of(req), None)),
                ],
            )
        } else {
            next.0 is AwaitSession && next.1 is LookUpSession
        },
        _ => false,
    }
}

/// The step after the session was looked up: the verification concludes,
/// with the refusal to answer with if any.
pub open spec fn session_found_step(
    req: RequestHead,
    wanted: Seq<Seq<char>>,
    o: Result<Session, StackureError>,
    next: (AuthStage, AuthAction),
) -> bool {
    &&& next.0 is Done
    &&& next.1 matches AuthAction::Conclude { result, reply } && verdict(o, wanted, result)
        && rejection_of(req, result, reply)
}

/// What one step of authenticating `req`, for a route that wants any one of
/// `wanted`, does from `stage` on `event`.
pub open spec fn step_taken(
    req: RequestHead,
    wanted: Seq<Seq<char>>,
    stage: AuthStage,
    event: AuthEvent,
    next: (AuthStage, AuthAction),
) -> bool {
    &&& event is Arrived ==> {
        let t = query_param_of(req, TOKEN_PARAM@);
        if t.len() == 0 && wants_form_token_of(req) {
            next.0 is AwaitBody && next.1 is ReadBody
        } else {
            after_token(t, next)
        }
    }
    &&& event matches AuthEvent::BodyRead(b) ==> after_token(body_token(b@), next)
    &&& event matches AuthEvent::TokenChecked(o) ==> token_checked_step(req, stage, o, next)
    &&& event matches AuthEvent::SessionFound(o) ==> session_found_step(req, wanted, o, next)
}

/// One step of authenticating `req` for a route that wants any one of
/// `permissions`: the query's handoff token is taken first, then a form
/// body's; a token is validated and, when Stackure accepts it, stored with
/// a redirect; otherwise the session is looked up and the request refused
/// or passed on.
pub fn auth_step(
    req: &RequestHead,
    permissions: &[&str],
    stage: AuthStage,
    event: AuthEvent,
) -> (next: (AuthStage, AuthAction))
    requires
        event_fits(stage, event),
    ensures
        step_taken(*req, str_views(permissions@), stage, event, next),
{
    match event {
        AuthEvent::Arrived => {
            let t = handoff_token(req);
            if t.as_str().is_empty() && wants_form_token(req) {
                (AuthStage::AwaitBody, AuthAction::ReadBody)
            } else {
                token_found(t)
            }
        },
        AuthEvent::BodyRead(b) => token_found(form_token(b.as_slice())),
        AuthEvent::TokenChecked(o) => {
            let t = match stage {
                AuthStage::AwaitToken(t) => t,
                _ => String::new(),
            };
            match checked_handoff(req, t.as_str(), &o) {
                Some(reply) => (AuthStage::Done, AuthAction::Answer(reply)),
                None => (AuthStage::AwaitSession, AuthAction::LookUpSession),
            }
        },
        AuthEvent::SessionFound(o) => {
            let result = verify(o, permissions);
            let reply = rejection(req, &result);
            (AuthStage::Done, AuthAction::Conclude { result, reply })
        },
    }
}

fn token_found(t: String) -> (next: (AuthStage, AuthAction))
    ensures
        after_token(t@, next),
{
    if t.as_str().is_empty() {
        (AuthStage::AwaitSession, AuthAction::LookUpSession)
    } else {
        let copy = t.clone();
        (AuthStage::AwaitToken(t), AuthAction::CheckToken(copy))
    }
}

fn copy_strings(v: &Vec<String>) -> (out: Vec<String>)
    ensures
        out@ == v@,
{
    let mut out: Vec<String> = Vec::new();
    let mut i: usize = 0;
    while i < v.len()
        invariant
            0 <= i <= v@.len(),
            out@ == v@.subrange(0, i as int),
        decreases v@.len() - i,
    {
        out.push(v[i].clone());
        i = i + 1;
        assert(out@ =~= v@.subrange(0, i as int));
    }
    assert(v@.subrange(0, v@.len() as int) =~= v@);
    out
}

fn str_refs(v: &Vec<String>) -> (out: Vec<&str>)
    ensures
        str_views(out@) == string_views(v@),
{
    let mut out: Vec<&str> = Vec::new();
    let mut i: usize = 0;
    while i < v.len()
        invariant
            0 <= i <= v@.len(),
            out@.len() == i,
            forall|k: int| 0 <= k < i ==> #[trigger] out@[k]@ == v@[k]@,
        decreases v@.len() - i,
    {
        out.push(v[i].as_str());
        i = i + 1;
    }
    assert(str_views(out@) =~= string_views(v@));
    out
}

/// The texts of a list of strings.
pub open spec fn string_views(list: Seq<String>) -> Seq<Seq<char>> {
    list.map_values(|s: String| s@)
}

/// The settings of the authentication layer returned by [`auth`].
#[derive(Debug, Clone)]
pub struct AuthLayer {
    app_id: String,
    permissions: Vec<String>,
}

/// The authentication service that [`AuthLayer`] wraps around a service.
#[derive(Debug, Clone)]
pub struct Auth<S> {
    inner: S,
    app_id: String,
    permissions: Vec<String>,
}

impl AuthLayer {
    /// The app this layer authenticates for.
    pub closed spec fn app(&self) -> Seq<char> {
        self.app_id@
    }

    /// The permissions this layer wants.
    pub closed spec fn wanted(&self) -> Seq<Seq<char>> {
        string_views(self.permissions@)
    }
}

impl<S> Auth<S> {
    /// The app this service authenticates for.
    pub closed spec fn app(&self) -> Seq<char> {
        self.app_id@
    }

    /// The permissions this service wants.
    pub closed spec fn wanted(&self) -> Seq<Seq<char>> {
        string_views(self.permissions@)
    }

    /// The wrapped service.
    pub closed spec fn service(&self) -> S {
        self.inner
    }
}

/// Middleware settings that enforce authentication for the app `app_id`,
/// wanting any one of `permissions` (or none).
pub fn auth(app_id: &str, permissions: &[&str]) -> (layer: AuthLayer)
    ensures
        layer.app() == app_id@,
        layer.wanted() == str_views(permissions@),
{
    let mut list: Vec<String> = Vec::new();
    let mut i: usize = 0;
    while i < permissions.len()
        invariant
            0 <= i <= permissions@.len(),
            list@.len() == i,
            string_views(list@) == str_views(permissions@.subrange(0, i as int)),
        decreases permissions@.len() - i,
    {
        let ghost prev = list@;
        list.push(String::from_str(permissions[i]));
        assert(list@[i as int]@ == permissions@[i as int]@);
        assert forall|k: int| 0 <= k <= i implies #[trigger] string_views(list@)[k] == str_views(
            permissions@.subrange(0, i + 1),
        )[k] by {
            if k < i {
                assert(list@[k] == prev[k]);
                assert(string_views(prev)[k] == str_views(permissions@.subrange(0, i as int))[k]);
            }
        }
        i = i + 1;
        assert(string_views(list@) =~= str_views(permissions@.subrange(0, i as int)));
    }
    assert(permissions@.subrange(0, permissions@.len() as int) =~= permissions@);
    AuthLayer { app_id: String::from_str(app_id), permissions: list }
}

impl AuthLayer {
    /// The app this layer authenticates for.
    pub fn app_id(&self) -> (s: &str)
        ensures
            s@ == self.app(),
    {
        self.app_id.as_str()
    }

    /// The permissions this layer wants, any one of which suffices.
    pub fn permissions(&self) -> (p: &Vec<String>)
        ensures
            string_views(p@) == self.wanted(),
    {
        &self.permissions
    }

    /// Wraps `inner` in the authentication service.
    pub fn layer<S>(&self, inner: S) -> (a: Auth<S>)
        ensures
            a.service() == inner,
            a.app() == self.app(),
            a.wanted() == self.wanted(),
    {
        Auth { inner, app_id: self.app_id.clone(), permissions: copy_strings(&self.permissions) }
    }
}

impl<S> Auth<S> {
    /// The app this service authenticates for.
    pub fn app_id(&self) -> (s: &str)
        ensures
            s@ == self.app(),
    {
        self.app_id.as_str()
    }

    /// The permissions this service wants, any one of which suffices.
    pub fn permissions(&self) -> (p: &Vec<String>)
        ensures
            string_views(p@) == self.wanted(),
    {
        &self.permissions
    }

    /// The wrapped service.
    pub fn inner(&self) -> (s: &S)
        ensures
            *s == self.service(),
    {
        &self.inner
    }

    /// Takes one step of authenticating a request to this service, for the
    /// permissions the service was made with.
    pub fn step(&self, req: &RequestHead, stage: AuthStage, event: AuthEvent) -> (next: (
        AuthStage,
        AuthAction,
    ))
        requires
            event_fits(stage, event),
        ensures
            step_taken(*req, self.wanted(), stage, event, next),
    {
        let wanted = str_refs(&self.permissions);
        auth_step(req, wanted.as_slice(), stage, event)
    }

    /// Plans looking up the session of `req` for this service's app, on the
    /// API host `base` ([`AuthAction::LookUpSession`]).
    pub fn plan_lookup(&self, req: &RequestHead, base: &str) -> (r: Result<
        SessionStep,
        StackureError,
    >)
        ensures
            planned(self.app(), cookie_of(*req, SESSION_COOKIE@), *req, base@, r),
    {
        validate_session(self.app_id.as_str(), req, base)
    }

    /// Plans validating the handoff `token` of `req` for this service's app,
    /// on the API host `base` ([`AuthAction::CheckToken`]).
    pub fn plan_token_check(&self, token: &str, req: &RequestHead, base: &str) -> (r: Result<
        SessionStep,
        StackureError,
    >)
        ensures
            planned(self.app(), token@, *req, base@, r),
    {
        validate_token(self.app_id.as_str(), token, req, base)
    }

    /// The wrapped service, to drive it.
    pub fn inner_mut(&mut self) -> (s: &mut S)
        ensures
            *s == old(self).service(),
            final(self).service() == *final(s),
            final(self).app() == old(self).app(),
            final(self).wanted() == old(self).wanted(),
    {
        &mut self.inner
    }
}

} // verus!
