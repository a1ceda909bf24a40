use stackure::middleware::{
    accepts_html, clean_url, cookie_header, error_body, is_https, wants_form_token,
};
use stackure::{
    auth, checked_handoff, cookie, form_token, handoff, handoff_token, logout, rejection, user_from_request, verify,
    HeaderField, Reply, RequestHead, Session, StackureError, User, VerifyError, VerifyResult,
};

const APP_ID: &str = "7f3c1a2e-9b4d-4e6f-8a1b-2c3d4e5f6071";

fn req(method: &str, uri: &str, headers: &[(&str, &str)]) -> RequestHead {
    let (path, query) = match uri.split_once('?') {
        Some((p, q)) => (p.to_string(), Some(q.to_string())),
        None => (uri.to_string(), None),
    };
    RequestHead {
        method: method.into(),
        scheme: None,
        path,
        query,
        headers: headers
            .iter()
            .map(|(n, v)| HeaderField { name: n.to_string(), value: v.as_bytes().to_vec() })
            .collect(),
        peer_ip: None,
        user: None,
    }
}

fn user(perms: &[&str]) -> User {
    User {
        user_id: "u1".into(),
        user_email: "a@b.co".into(),
        user_first_name: "A".into(),
        user_last_name: "B".into(),
        user_permissions: perms.iter().map(|p| p.to_string()).collect(),
    }
}

fn signed_in(perms: &[&str]) -> Session {
    Session { authenticated: true, user: Some(user(perms)), sign_in_url: String::new() }
}

fn header_of(r: &Reply, name: &str) -> String {
    r.headers.iter().find(|h| h.name == name).map(|h| h.value.clone()).unwrap_or_default()
}

#[test]
fn verify_grants_held_permission() {
    let r = verify(Ok(signed_in(&["can_approve_invoice"])), &["can_approve_invoice"]);
    assert_eq!(r, VerifyResult { authenticated: true, user: Some(user(&["can_approve_invoice"])), error: None });
    let r = verify(Ok(signed_in(&[])), &[]);
    assert!(r.authenticated);
    let r = verify(Ok(signed_in(&["b"])), &["a", "b"]);
    assert!(r.authenticated);
}

#[test]
fn verify_refuses_missing_permission_with_user() {
    let r = verify(Ok(signed_in(&["can_approve_invoice"])), &["nope_perm", "other"]);
    assert!(!r.authenticated);
    assert_eq!(r.user, Some(user(&["can_approve_invoice"])));
    assert_eq!(
        r.error,
        Some(VerifyError { code: 403, message: "Requires one of: nope_perm, other".into(), sign_in_url: String::new() })
    );
}

#[test]
fn verify_unknown_session_is_401_with_sign_in_url() {
    let s = Session { authenticated: false, user: None, sign_in_url: "https://stackure.test/sign-in".into() };
    let r = verify(Ok(s), &["x"]);
    assert_eq!(
        r,
        VerifyResult {
            authenticated: false,
            user: None,
            error: Some(VerifyError {
                code: 401,
                message: "Valid authentication required".into(),
                sign_in_url: "https://stackure.test/sign-in".into(),
            }),
        }
    );
    // Authenticated without a user is still a 401.
    let s = Session { authenticated: true, user: None, sign_in_url: String::new() };
    assert_eq!(verify(Ok(s), &[]).error.unwrap().code, 401);
}

#[test]
fn verify_failure_is_500() {
    let r = verify(Err(StackureError::Timeout("request timed out after 2s".into())), &[]);
    assert!(!r.authenticated && r.user.is_none());
    assert_eq!(
        r.error,
        Some(VerifyError { code: 500, message: "Authentication verification failed".into(), sign_in_url: String::new() })
    );
}

#[test]
fn handoff_from_query_redirects_to_clean_url() {
    let r = req("GET", "/admin?a=1&session_token=tok-abc123", &[]);
    let token = handoff_token(&r);
    assert_eq!(token, "tok-abc123");
    let reply = handoff(&r, &token);
    assert_eq!(reply.status, 303);
    assert_eq!(header_of(&reply, "location"), "/admin?a=1");
    assert_eq!(header_of(&reply, "set-cookie"), "session=tok-abc123; Path=/; HttpOnly; SameSite=Lax");
    assert!(reply.body.is_empty());
}

#[test]
fn handoff_from_form_body() {
    let r = req("POST", "/admin", &[("content-type", "application/x-www-form-urlencoded")]);
    assert!(wants_form_token(&r));
    assert_eq!(handoff_token(&r), "");
    let token = form_token(b"session_token=tok-abc123");
    assert_eq!(token, "tok-abc123");
    let reply = handoff(&r, &token);
    assert_eq!((reply.status, header_of(&reply, "location").as_str()), (303, "/admin"));
    assert!(header_of(&reply, "set-cookie").contains("session=tok-abc123") && header_of(&reply, "set-cookie").contains("HttpOnly"));
}

#[test]
fn oversized_handoff_body_is_ignored() {
    let mut body = b"session_token=tok&pad=".to_vec();
    body.resize(4097, b'x');
    assert_eq!(form_token(&body), "");
    body.truncate(4096);
    assert_eq!(form_token(&body), "tok");
}

#[test]
fn form_token_only_for_cookieless_form_posts() {
    let form = ("content-type", "application/x-www-form-urlencoded; charset=utf-8");
    assert!(wants_form_token(&req("POST", "/", &[form])));
    assert!(!wants_form_token(&req("GET", "/", &[form])));
    assert!(!wants_form_token(&req("POST", "/", &[form, ("cookie", "session=x")])));
    assert!(!wants_form_token(&req("POST", "/", &[("content-type", "application/json")])));
    assert!(!wants_form_token(&req("POST", "/", &[])));
}

#[test]
fn secure_cookie_only_over_tls() {
    let plain = req("GET", "/admin?session_token=t", &[]);
    assert!(!is_https(&plain));
    let proxied = req("GET", "/admin?session_token=t", &[("x-forwarded-proto", "HTTPS")]);
    assert!(is_https(&proxied));
    let mut direct = req("GET", "/admin?session_token=t", &[]);
    direct.scheme = Some("https".into());
    assert!(is_https(&direct));
    assert_eq!(
        header_of(&handoff(&proxied, "t"), "set-cookie"),
        "session=t; Path=/; HttpOnly; SameSite=Lax; Secure"
    );
    assert_eq!(header_of(&handoff(&proxied, "t"), "location"), "/admin");
}

#[test]
fn clean_url_keeps_other_pairs_in_order() {
    assert_eq!(clean_url(&req("GET", "/p?session_token=x&b=2&&c&session_token=y&d=", &[])), "/p?b=2&c&d=");
    assert_eq!(clean_url(&req("GET", "/p", &[])), "/p");
    assert_eq!(clean_url(&req("GET", "/p?", &[])), "/p");
}

#[test]
fn cookie_header_forms() {
    assert_eq!(cookie_header("v", false, None), "session=v; Path=/; HttpOnly; SameSite=Lax");
    assert_eq!(cookie_header("", true, Some(0)), "session=; Path=/; HttpOnly; SameSite=Lax; Secure; Max-Age=0");
    assert_eq!(cookie_header("v", false, Some(-42)), "session=v; Path=/; HttpOnly; SameSite=Lax; Max-Age=-42");
    assert_eq!(cookie_header("v", false, Some(i32::MIN)), format!("session=v; Path=/; HttpOnly; SameSite=Lax; Max-Age={}", i32::MIN));
}

#[test]
fn handoff_cookie_is_read_back() {
    let set = cookie_header("tok-abc123", true, None);
    let pair = set.split(';').next().unwrap();
    let back = req("GET", "/", &[("cookie", &format!("{pair}; other=1"))]);
    assert_eq!(cookie(&back, "session"), "tok-abc123");
}

#[test]
fn redirect_after_handoff_carries_no_token() {
    let first = req("GET", "/admin?a=1&session_token=tok&b=2", &[]);
    let reply = handoff(&first, &handoff_token(&first));
    let second = req("GET", &header_of(&reply, "location"), &[]);
    assert_eq!(handoff_token(&second), "");
}

#[test]
fn browser_401_redirects_to_sign_in() {
    let result = verify(
        Ok(Session { authenticated: false, user: None, sign_in_url: "https://stackure.test/sign-in".into() }),
        &["can_approve_invoice"],
    );
    let html = req("GET", "/admin", &[("accept", "text/html")]);
    assert!(accepts_html(&html));
    let reply = rejection(&html, &result).unwrap();
    assert_eq!((reply.status, header_of(&reply, "location").as_str()), (302, "https://stackure.test/sign-in"));
    assert!(reply.body.is_empty());
}

#[test]
fn api_401_gets_json() {
    let result = verify(
        Ok(Session { authenticated: false, user: None, sign_in_url: "https://stackure.test/sign-in".into() }),
        &[],
    );
    let json = req("GET", "/admin", &[("accept", "application/json")]);
    assert!(!accepts_html(&json));
    let mixed = req("GET", "/admin", &[("accept", "text/html, application/json")]);
    assert!(!accepts_html(&mixed));
    let reply = rejection(&json, &result).unwrap();
    assert_eq!(reply.status, 401);
    assert_eq!(header_of(&reply, "content-type"), "application/json");
    let body = String::from_utf8(reply.body).unwrap();
    assert_eq!(
        body,
        r#"{"error":"Unauthorized","message":"Valid authentication required","sign_in_url":"https://stackure.test/sign-in"}"#
    );
}

#[test]
fn forbidden_gets_json_even_for_browsers() {
    let result = verify(Ok(signed_in(&["can_approve_invoice"])), &["nope_perm"]);
    let html = req("GET", "/admin", &[("accept", "text/html")]);
    let reply = rejection(&html, &result).unwrap();
    assert_eq!(reply.status, 403);
    let body = String::from_utf8(reply.body).unwrap();
    assert!(body.contains(r#""error":"Forbidden""#));
    assert!(body.contains("Requires one of: nope_perm"));
    assert!(body.contains(r#""sign_in_url":"""#));
}

#[test]
fn rejection_edge_cases() {
    let ok = verify(Ok(signed_in(&[])), &[]);
    assert!(rejection(&req("GET", "/", &[]), &ok).is_none());
    let odd = VerifyResult {
        authenticated: false,
        user: None,
        error: Some(VerifyError { code: 42, message: "m\"q".into(), sign_in_url: String::new() }),
    };
    let reply = rejection(&req("GET", "/", &[]), &odd).unwrap();
    assert_eq!(reply.status, 401);
    assert_eq!(String::from_utf8(reply.body).unwrap(), r#"{"error":"Error","message":"m\"q","sign_in_url":""}"#);
    // A 401 without a sign-in URL is JSON even for browsers.
    let no_url = verify(Ok(Session::default()), &[]);
    let reply = rejection(&req("GET", "/", &[("accept", "text/html")]), &no_url).unwrap();
    assert_eq!(reply.status, 401);
    assert_eq!(
        error_body(&no_url.error.unwrap()),
        br#"{"error":"Unauthorized","message":"Valid authentication required","sign_in_url":""}"#.to_vec()
    );
}

#[test]
fn logout_clears_cookie_and_redirects() {
    let reply = logout(&req("GET", "/logout", &[]), "http://127.0.0.1:9");
    assert_eq!(reply.status, 303);
    assert_eq!(header_of(&reply, "location"), "http://127.0.0.1:9/signout");
    let c = header_of(&reply, "set-cookie");
    assert!(c.contains("Max-Age=0") && c.starts_with("session=;"));
    assert!(!c.contains("Secure"));
}

#[test]
fn auth_layer_keeps_settings() {
    let layer = auth(APP_ID, &["can_approve_invoice", "x"]);
    assert_eq!(layer.app_id(), APP_ID);
    assert_eq!(layer.permissions(), &vec!["can_approve_invoice".to_string(), "x".to_string()]);
    let svc = layer.layer(7u8);
    assert_eq!((svc.app_id(), *svc.inner()), (APP_ID, 7u8));
    assert_eq!(svc.permissions().len(), 2);
}

#[test]
fn user_from_request_reads_attached_user() {
    let mut r = req("GET", "/", &[]);
    assert!(user_from_request(&r).is_none());
    r.user = Some(user(&["p"]));
    assert_eq!(user_from_request(&r).unwrap().user_email, "a@b.co");
}

#[test]
fn handoff_only_for_tokens_stackure_accepts() {
    let r = req("GET", "/admin?session_token=t&x=1", &[("x-forwarded-proto", "https")]);
    let reply = checked_handoff(&r, "t", &Ok(signed_in(&[]))).unwrap();
    assert_eq!(reply.status, 303);
    assert_eq!(header_of(&reply, "location"), "/admin?x=1");
    assert_eq!(header_of(&reply, "set-cookie"), "session=t; Path=/; HttpOnly; SameSite=Lax; Secure");
    let unknown = Session { authenticated: false, user: None, sign_in_url: "u".into() };
    assert!(checked_handoff(&r, "t", &Ok(unknown)).is_none());
    let no_user = Session { authenticated: true, user: None, sign_in_url: String::new() };
    assert!(checked_handoff(&r, "t", &Ok(no_user)).is_none());
    assert!(checked_handoff(&r, "t", &Err(StackureError::Network("x".into()))).is_none());
}
