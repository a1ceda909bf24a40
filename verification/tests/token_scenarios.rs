use stackure::middleware::{AuthAction, AuthEvent, AuthStage};
use stackure::{
    auth, call_headers, ApiCall, Auth, HeaderField, Reply, RequestHead, Session, SessionStep,
    StackureError, User,
};

const APP_ID: &str = "7f3c1a2e-9b4d-4e6f-8a1b-2c3d4e5f6071";
const TOK: &str = "tok-abc123";
const BASE: &str = "https://stackure.test";

fn head(method: &str, path: &str, query: Option<&str>, extra: &[(&str, &str)]) -> RequestHead {
    let mut headers = vec![("user-agent", "TestUA"), ("x-forwarded-for", "203.0.113.9, 10.0.0.1")];
    headers.extend_from_slice(extra);
    RequestHead {
        method: method.into(),
        scheme: None,
        path: path.into(),
        query: query.map(str::to_string),
        headers: headers
            .iter()
            .map(|(n, v)| HeaderField { name: n.to_string(), value: v.as_bytes().to_vec() })
            .collect(),
        peer_ip: None,
        user: None,
    }
}

/// Stackure as the SDK's parity tests fake it: the session cookie
/// `session=tok-abc123` belongs to a@b.co, anything else is signed out.
fn stackure(step: SessionStep, sent: &mut Vec<ApiCall>) -> Result<Session, StackureError> {
    match step {
        SessionStep::Known(s) => Ok(s),
        SessionStep::Ask(call) => {
            let authed = call.token == TOK;
            sent.push(call);
            Ok(if authed {
                Session {
                    authenticated: true,
                    user: Some(User {
                        user_id: "u1".into(),
                        user_email: "a@b.co".into(),
                        user_first_name: "A".into(),
                        user_last_name: "B".into(),
                        user_permissions: vec!["can_approve_invoice".into()],
                    }),
                    sign_in_url: String::new(),
                }
            } else {
                Session {
                    authenticated: false,
                    user: None,
                    sign_in_url: "https://stackure.test/sign-in".into(),
                }
            })
        }
    }
}

enum Outcome {
    Answered(Reply),
    Passed(Option<User>, Vec<u8>),
}

/// Runs the service's steps for one request as the tower layer does.
fn drive(svc: &Auth<()>, req: &RequestHead, body: &[u8], sent: &mut Vec<ApiCall>) -> Outcome {
    let mut stage = AuthStage::Start;
    let mut event = AuthEvent::Arrived;
    loop {
        let (next, action) = svc.step(req, stage, event);
        stage = next;
        event = match action {
            AuthAction::ReadBody => AuthEvent::BodyRead(body.to_vec()),
            AuthAction::CheckToken(t) => {
                let plan = svc.plan_token_check(&t, req, BASE).unwrap();
                AuthEvent::TokenChecked(stackure(plan, sent))
            }
            AuthAction::LookUpSession => {
                let plan = svc.plan_lookup(req, BASE).unwrap();
                AuthEvent::SessionFound(stackure(plan, sent))
            }
            AuthAction::Answer(reply) => return Outcome::Answered(reply),
            AuthAction::Conclude { result, reply } => {
                return match reply {
                    Some(reply) => Outcome::Answered(reply),
                    None => Outcome::Passed(result.user, body.to_vec()),
                };
            }
        };
    }
}

fn header_of(r: &Reply, name: &str) -> String {
    r.headers.iter().find(|h| h.name == name).map(|h| h.value.clone()).unwrap_or_default()
}

fn answered(o: Outcome) -> Reply {
    match o {
        Outcome::Answered(r) => r,
        Outcome::Passed(..) => panic!("expected an answer"),
    }
}

#[test]
fn query_handoff_stores_the_token() {
    let svc = auth(APP_ID, &["can_approve_invoice"]).layer(());
    let req = head("GET", "/admin", Some(&format!("a=1&session_token={TOK}")), &[]);
    let r = answered(drive(&svc, &req, b"", &mut Vec::new()));
    assert_eq!(r.status, 303);
    assert_eq!(header_of(&r, "location"), "/admin?a=1");
    assert!(header_of(&r, "set-cookie").starts_with(&format!("session={TOK};")));
}

#[test]
fn form_handoff_stores_the_token() {
    let svc = auth(APP_ID, &["can_approve_invoice"]).layer(());
    let req = head("POST", "/admin", None, &[("content-type", "application/x-www-form-urlencoded")]);
    let body = format!("session_token={TOK}");
    let r = answered(drive(&svc, &req, body.as_bytes(), &mut Vec::new()));
    assert_eq!(r.status, 303);
    assert_eq!(header_of(&r, "location"), "/admin");
    let c = header_of(&r, "set-cookie");
    assert!(c.contains(&format!("session={TOK}")) && c.contains("HttpOnly"));
}

#[test]
fn session_cookie_reaches_the_app_with_its_user() {
    let svc = auth(APP_ID, &["can_approve_invoice"]).layer(());
    let cookie = format!("session={TOK}; other=1");
    let req = head("GET", "/admin", None, &[("cookie", cookie.as_str())]);
    let mut sent = Vec::new();
    match drive(&svc, &req, b"", &mut sent) {
        Outcome::Passed(user, _) => assert_eq!(user.unwrap().user_email, "a@b.co"),
        Outcome::Answered(r) => panic!("refused with {}", r.status),
    }
    assert_eq!(sent.len(), 1);
    let headers: Vec<(String, String)> = call_headers(&sent[0], "s3cret")
        .into_iter()
        .map(|h| (h.name, h.value))
        .collect();
    assert!(headers.contains(&("cookie".to_string(), format!("session={TOK}"))));
    assert!(headers.contains(&("user-agent".to_string(), "TestUA".to_string())));
    assert!(headers.contains(&("x-forwarded-for".to_string(), "203.0.113.9".to_string())));
}

#[test]
fn missing_permission_is_a_json_403() {
    let svc = auth(APP_ID, &["nope_perm"]).layer(());
    let cookie = format!("session={TOK}");
    let req = head("GET", "/admin", None, &[("cookie", cookie.as_str())]);
    let r = answered(drive(&svc, &req, b"", &mut Vec::new()));
    assert_eq!(r.status, 403);
    let body = String::from_utf8(r.body).unwrap();
    assert!(body.contains(r#""error":"Forbidden""#));
    assert!(body.contains("Requires one of: nope_perm"));
    assert!(body.contains(r#""sign_in_url":"""#));
}

#[test]
fn posted_body_reaches_the_app() {
    let svc = auth(APP_ID, &[]).layer(());
    let cookie = format!("session={TOK}");
    let req = head(
        "POST",
        "/admin",
        None,
        &[("cookie", cookie.as_str()), ("content-type", "application/x-www-form-urlencoded")],
    );
    match drive(&svc, &req, b"x=1&y=2", &mut Vec::new()) {
        Outcome::Passed(user, body) => {
            assert!(user.is_some());
            assert_eq!(body, b"x=1&y=2".to_vec());
        }
        Outcome::Answered(r) => panic!("refused with {}", r.status),
    }
}

#[test]
fn unknown_token_is_asked_and_refused() {
    let svc = auth(APP_ID, &[]).layer(());
    let req = head("GET", "/admin", None, &[("cookie", "session=other"), ("accept", "text/html")]);
    let mut sent = Vec::new();
    let r = answered(drive(&svc, &req, b"", &mut sent));
    assert_eq!(sent.len(), 1);
    assert_eq!(r.status, 302);
    assert_eq!(header_of(&r, "location"), "https://stackure.test/sign-in");
}
