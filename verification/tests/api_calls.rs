use stackure::{
    app_secret_from, base_url_from, call_headers, call_url, finish_parse, handle_response,
    send_magic_link, validate_session, validate_token, ApiMethod, HeaderField, Parsed, RequestHead,
    SessionStep, StackureError,
};

const APP_ID: &str = "7f3c1a2e-9b4d-4e6f-8a1b-2c3d4e5f6071";
const TOKEN: &str = "1b2c3d4e-5f60-4a1b-9c2d-3e4f5a6b7c8d";

fn browser(headers: &[(&str, &str)]) -> RequestHead {
    RequestHead {
        method: "GET".into(),
        scheme: None,
        path: "/admin".into(),
        query: None,
        headers: headers
            .iter()
            .map(|(n, v)| HeaderField { name: n.to_string(), value: v.as_bytes().to_vec() })
            .collect(),
        peer_ip: None,
        user: None,
    }
}

fn pairs(hs: &[stackure::Header]) -> Vec<(String, String)> {
    hs.iter().map(|h| (h.name.clone(), h.value.clone())).collect()
}

#[test]
fn magic_link_body_with_and_without_app() {
    let call = send_magic_link("user@example.com", Some(APP_ID)).unwrap();
    assert_eq!(call.method, ApiMethod::Post);
    assert_eq!(call.path, "/api/public/auth/magic-link/send");
    assert_eq!(call.query, None);
    assert_eq!(
        String::from_utf8(call.body.unwrap()).unwrap(),
        format!(r#"{{"app_id":"{APP_ID}","user_email":"user@example.com"}}"#)
    );
    assert_eq!((call.token.as_str(), call.user_agent.as_str(), call.client_ip.as_str()), ("", "", ""));

    let call = send_magic_link("a@b.co", None).unwrap();
    assert_eq!(String::from_utf8(call.body.unwrap()).unwrap(), r#"{"user_email":"a@b.co"}"#);
    let call = send_magic_link("a@b.co", Some("")).unwrap();
    assert_eq!(String::from_utf8(call.body.unwrap()).unwrap(), r#"{"user_email":"a@b.co"}"#);
}

#[test]
fn magic_link_body_escapes_quotes() {
    let call = send_magic_link("a\"q@b.co", None).unwrap();
    assert_eq!(String::from_utf8(call.body.unwrap()).unwrap(), r#"{"user_email":"a\"q@b.co"}"#);
}

#[test]
fn magic_link_rejects_bad_input() {
    for (input, want) in [("not-an-email", "invalid email format"), ("", "email is required")] {
        let e = send_magic_link(input, None).unwrap_err();
        assert_eq!((e.code(), e.message()), ("validation", want));
    }
    let e = send_magic_link("a@b.co", Some("not-a-uuid")).unwrap_err();
    assert_eq!(e.message(), "invalid App ID format (must be a valid UUID)");
    // The address is checked before the app ID.
    let e = send_magic_link("bad", Some("not-a-uuid")).unwrap_err();
    assert_eq!(e.message(), "invalid email format");
}

#[test]
fn missing_token_gets_sign_in_url_without_a_call() {
    let req = browser(&[]);
    match validate_session(APP_ID, &req, "https://stackure.test").unwrap() {
        SessionStep::Known(s) => {
            assert!(!s.authenticated);
            assert!(s.user.is_none());
            assert_eq!(
                s.sign_in_url,
                format!("https://stackure.test/sign-in/magic-link?app_id={APP_ID}")
            );
        }
        SessionStep::Ask(_) => panic!("expected no call"),
    }
    match validate_token(APP_ID, "", &req, "https://stackure.test").unwrap() {
        SessionStep::Known(s) => {
            assert!(!s.authenticated);
            assert!(s.user.is_none());
            assert_eq!(
                s.sign_in_url,
                format!("https://stackure.test/sign-in/magic-link?app_id={APP_ID}")
            );
        }
        SessionStep::Ask(_) => panic!("expected no call"),
    }
}

#[test]
fn well_formed_token_is_validated_with_browser_details() {
    let req = browser(&[
        ("user-agent", "TestUA"),
        ("x-forwarded-for", "203.0.113.9, 10.0.0.1"),
        ("cookie", &format!("session={TOKEN}; other=1")),
    ]);
    match validate_session(APP_ID, &req, "https://stackure.test").unwrap() {
        SessionStep::Ask(call) => {
            assert_eq!(call.method, ApiMethod::Get);
            assert_eq!(call.path, "/api/public/auth/session/validate");
            assert_eq!(call.query.as_deref(), Some(format!("app_id={APP_ID}").as_str()));
            assert_eq!(call.body, None);
            assert_eq!(call.token, TOKEN);
            assert_eq!(call.user_agent, "TestUA");
            assert_eq!(call.client_ip, "203.0.113.9");
            assert_eq!(
                call_url("https://stackure.test", &call),
                format!("https://stackure.test/api/public/auth/session/validate?app_id={APP_ID}")
            );
            assert_eq!(
                pairs(&call_headers(&call, "s3cret")),
                vec![
                    ("x-app-secret".to_string(), "s3cret".to_string()),
                    ("user-agent".to_string(), "TestUA".to_string()),
                    ("x-forwarded-for".to_string(), "203.0.113.9".to_string()),
                    ("cookie".to_string(), format!("session={TOKEN}")),
                ]
            );
        }
        SessionStep::Known(_) => panic!("expected a call"),
    }
}

#[test]
fn validate_token_rejects_bad_app_id() {
    let req = browser(&[]);
    let e = validate_token("nope", TOKEN, &req, "https://x").unwrap_err();
    assert_eq!(e, StackureError::Validation("invalid App ID format (must be a valid UUID)".into()));
    let e = validate_token("", TOKEN, &req, "https://x").unwrap_err();
    assert_eq!(e.message(), "App ID is required");
}

#[test]
fn magic_link_headers_carry_content_type_and_secret_only() {
    let call = send_magic_link("a@b.co", None).unwrap();
    assert_eq!(call_url("https://stackure.com", &call), "https://stackure.com/api/public/auth/magic-link/send");
    assert_eq!(
        pairs(&call_headers(&call, "k")),
        vec![
            ("content-type".to_string(), "application/json".to_string()),
            ("x-app-secret".to_string(), "k".to_string()),
        ]
    );
}

#[test]
fn forwarded_headers_skip_invalid_values() {
    let req = browser(&[("x-forwarded-for", "203.0.113.9")]);
    let mut call = match validate_token(APP_ID, TOKEN, &req, "b").unwrap() {
        SessionStep::Ask(c) => c,
        SessionStep::Known(_) => panic!("expected a call"),
    };
    call.user_agent = "bad\nagent".into();
    let names: Vec<String> = call_headers(&call, "k").into_iter().map(|h| h.name).collect();
    assert_eq!(names, vec!["x-app-secret", "x-forwarded-for", "cookie"]);
}

#[test]
fn answers_map_to_results() {
    assert_eq!(handle_response(200, br#"{"message":"ok"}"#), Ok(r#"{"message":"ok"}"#.to_string()));
    assert_eq!(handle_response(204, b""), Ok(String::new()));
    assert_eq!(handle_response(401, b""), Err(StackureError::Auth("unknown error".into())));
    assert_eq!(handle_response(401, b"no"), Err(StackureError::Auth("no".into())));
    assert_eq!(handle_response(403, b"nope"), Err(StackureError::Forbidden("nope".into())));
    assert_eq!(
        handle_response(500, b"boom"),
        Err(StackureError::Network("api error (500): boom".into()))
    );
    assert_eq!(
        handle_response(302, b""),
        Err(StackureError::Network("api error (302): unknown error".into()))
    );
    assert_eq!(
        handle_response(199, b"x"),
        Err(StackureError::Network("api error (199): x".into()))
    );
}

#[test]
fn parse_outcomes_map_to_errors() {
    assert_eq!(finish_parse(Parsed::Value(7)), Ok(7));
    assert_eq!(
        finish_parse::<u8>(Parsed::NotJson),
        Err(StackureError::Network("invalid JSON response from server".into()))
    );
    assert_eq!(
        finish_parse::<u8>(Parsed::WrongShape),
        Err(StackureError::Network("unexpected API response format".into()))
    );
}

#[test]
fn settings_resolve() {
    assert_eq!(base_url_from(None), "https://stackure.com");
    assert_eq!(base_url_from(Some(String::new())), "https://stackure.com");
    assert_eq!(base_url_from(Some("http://127.0.0.1:9/".into())), "http://127.0.0.1:9");
    assert_eq!(base_url_from(Some("http://h//".into())), "http://h");
    assert_eq!(base_url_from(Some("///".into())), "");
    assert_eq!(app_secret_from(Some("k".into())), Ok("k".into()));
    let missing = Err(StackureError::Validation("STACKURE_APP_SECRET is not set".into()));
    assert_eq!(app_secret_from(None), missing);
    assert_eq!(app_secret_from(Some(String::new())), missing);
}

#[test]
fn any_session_token_is_validated_with_stackure() {
    let req = browser(&[
        ("user-agent", "TestUA"),
        ("x-forwarded-for", "203.0.113.9, 10.0.0.1"),
        ("cookie", "session=tok-abc123; other=1"),
    ]);
    match validate_session(APP_ID, &req, "https://stackure.test").unwrap() {
        SessionStep::Ask(call) => {
            assert_eq!(call.token, "tok-abc123");
            assert_eq!(
                pairs(&call_headers(&call, "s3cret")),
                vec![
                    ("x-app-secret".to_string(), "s3cret".to_string()),
                    ("user-agent".to_string(), "TestUA".to_string()),
                    ("x-forwarded-for".to_string(), "203.0.113.9".to_string()),
                    ("cookie".to_string(), "session=tok-abc123".to_string()),
                ]
            );
        }
        SessionStep::Known(_) => panic!("expected a call"),
    }
    match validate_token(APP_ID, "tok-abc123", &browser(&[]), "https://stackure.test").unwrap() {
        SessionStep::Ask(call) => assert_eq!(call.token, "tok-abc123"),
        SessionStep::Known(_) => panic!("expected a call"),
    }
}
