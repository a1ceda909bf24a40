use stackure::{client_ip, cookie, form_value, percent_decode, query_param, HeaderField, RequestHead};

fn head(method: &str, path: &str, query: Option<&str>, headers: &[(&str, &str)]) -> RequestHead {
    RequestHead {
        method: method.to_string(),
        scheme: None,
        path: path.to_string(),
        query: query.map(str::to_string),
        headers: headers
            .iter()
            .map(|(n, v)| HeaderField { name: n.to_string(), value: v.as_bytes().to_vec() })
            .collect(),
        peer_ip: None,
        user: None,
    }
}

#[test]
fn percent_decode_plus_and_escapes() {
    assert_eq!(percent_decode("a+b%20c"), "a b c");
    assert_eq!(percent_decode("%41%62"), "Ab");
    assert_eq!(percent_decode("100%"), "100%");
    assert_eq!(percent_decode("%4"), "%4");
    assert_eq!(percent_decode("%zz"), "%zz");
    assert_eq!(percent_decode("%E2%82%AC"), "\u{20ac}");
    assert_eq!(percent_decode("%ff"), "\u{fffd}");
}

#[test]
fn percent_decode_escape_needs_two_bytes_after() {
    // `%41` at the very end has only two bytes after the `%`; it decodes.
    assert_eq!(percent_decode("x%41"), "xA");
    // A sign before one hex digit parses as that digit.
    assert_eq!(percent_decode("%+5x"), "\u{5}x");
    assert_eq!(percent_decode("%-5x"), "%-5x");
}

#[test]
fn form_value_finds_first_named_pair() {
    assert_eq!(form_value("a=1&session_token=tok&session_token=x", "session_token"), "tok");
    assert_eq!(form_value("a=1&b=2", "session_token"), "");
    assert_eq!(form_value("", "a"), "");
    assert_eq!(form_value("a&a=2", "a"), "2");
    assert_eq!(form_value("na%6De=v+w", "name"), "v w");
    assert_eq!(form_value("a==b", "a"), "=b");
}

#[test]
fn cookie_reads_named_cookie() {
    let req = head("GET", "/", None, &[("cookie", "session=tok-abc123; other=1")]);
    assert_eq!(cookie(&req, "session"), "tok-abc123");
    assert_eq!(cookie(&req, "other"), "1");
    assert_eq!(cookie(&req, "missing"), "");
    let req = head("GET", "/", None, &[("cookie", "junk; session = \"v\" ")]);
    assert_eq!(cookie(&req, "session"), "v");
    let req = head("GET", "/", None, &[]);
    assert_eq!(cookie(&req, "session"), "");
}

#[test]
fn cookie_uses_first_cookie_header_and_visible_ascii_only() {
    let req = head(
        "GET",
        "/",
        None,
        &[("cookie", "session=first"), ("cookie", "session=second")],
    );
    assert_eq!(cookie(&req, "session"), "first");
    let mut req = head("GET", "/", None, &[]);
    req.headers.push(HeaderField { name: "cookie".into(), value: b"session=\xffx".to_vec() });
    assert_eq!(cookie(&req, "session"), "");
}

#[test]
fn client_ip_prefers_first_forwarded_entry() {
    let req = head("GET", "/", None, &[("x-forwarded-for", "203.0.113.9, 10.0.0.1")]);
    assert_eq!(client_ip(&req), "203.0.113.9");
    let mut req = head("GET", "/", None, &[("x-forwarded-for", " , 10.0.0.1")]);
    req.peer_ip = Some("198.51.100.7".into());
    assert_eq!(client_ip(&req), "198.51.100.7");
    let mut req = head("GET", "/", None, &[]);
    req.peer_ip = Some("198.51.100.7".into());
    assert_eq!(client_ip(&req), "198.51.100.7");
    let req = head("GET", "/", None, &[]);
    assert_eq!(client_ip(&req), "");
}

#[test]
fn query_param_reads_query() {
    let req = head("GET", "/admin", Some("a=1&session_token=tok"), &[]);
    assert_eq!(query_param(&req, "session_token"), "tok");
    let req = head("GET", "/admin", None, &[]);
    assert_eq!(query_param(&req, "session_token"), "");
}
