//! Reading cookies, forms and the client address off a request.

use vstd::prelude::*;
use vstd::string::StringSliceAdditionalSpecFns;
use vstd::utf8::encode_utf8;

use crate::codec::{lossy_string, lossy_text};
use crate::request::{header_or_empty, header_text, RequestHead};
use crate::text::{
    chars_of, find_char, first_index, lemma_first_index, strip_chars, strip_char, string_of,
    sub_chars, trim, trim_chars,
};

verus! {

/// Name of the session cookie the SDK reads and writes.
pub const SESSION_COOKIE: &'static str = "session";

/// Name of the sign-in handoff parameter Stackure sends back.
pub const TOKEN_PARAM: &'static str = "session_token";

/// The text before the first `c` of `s` (all of `s` when there is none).
pub open spec fn before(s: Seq<char>, c: char) -> Seq<char> {
    s.take(first_index(s, c))
}

/// The text after the first `c` of `s`.
pub open spec fn after(s: Seq<char>, c: char) -> Seq<char> {
    s.skip(first_index(s, c) + 1)
}

/// Whether `c` occurs in `s`.
pub open spec fn holds(s: Seq<char>, c: char) -> bool {
    first_index(s, c) < s.len()
}

/// The value of a hex digit byte.
pub open spec fn hex_digit_value(b: u8) -> Option<u8> {
    if 0x30 <= b <= 0x39 {
        Some((b - 0x30) as u8)
    } else if 0x61 <= b <= 0x66 {
        Some((b - 0x61 + 10) as u8)
    } else if 0x41 <= b <= 0x46 {
        Some((b - 0x41 + 10) as u8)
    } else {
        None
    }
}

/// What `u8::from_str_radix(_, 16)` gives for the two bytes after a `%`:
/// two hex digits, or a `+` sign followed by one.
pub open spec fn hex_pair(hi: u8, lo: u8) -> Option<u8> {
    if hi == 0x2b {
        hex_digit_value(lo)
    } else {
        match (hex_digit_value(hi), hex_digit_value(lo)) {
            (Some(h), Some(l)) => Some((h * 16 + l) as u8),
            _ => None,
        }
    }
}

/// Form decoding of raw bytes: `+` is a space, `%XY` is the byte `0xXY`,
/// and anything else, a stray `%` included, stands for itself.
pub open spec fn pct_decode(s: Seq<u8>) -> Seq<u8>
    decreases s.len(),
{
    if s.len() == 0 {
        seq![]
    } else if s[0] == 0x2b {
        seq![0x20u8] + pct_decode(s.drop_first())
    } else if s[0] == 0x25 && 2 < s.len() && hex_pair(s[1], s[2]) is Some {
        seq![hex_pair(s[1], s[2])->0] + pct_decode(s.subrange(3, s.len() as int))
    } else {
        seq![s[0]] + pct_decode(s.drop_first())
    }
}

/// Form decoding of text: decode the bytes, then read them as UTF-8 with
/// invalid sequences replaced.
pub open spec fn pct_text(s: Seq<char>) -> Seq<char> {
    lossy_text(pct_decode(encode_utf8(s)))
}

/// The value of the first `name=value` pair of a form-encoded string whose
/// decoded name is `name`, decoded; empty when there is none.
pub open spec fn form_in(s: Seq<char>, name: Seq<char>) -> Seq<char>
    decreases s.len(),
{
    let pair = before(s, '&');
    if holds(pair, '=') && pct_text(before(pair, '=')) == name {
        pct_text(after(pair, '='))
    } else if holds(s, '&') {
        proof {
            lemma_first_index(s, '&');
        }
        form_in(after(s, '&'), name)
    } else {
        seq![]
    }
}

/// The value of the first `name=value` part of a cookie header whose
/// trimmed name is `name`, trimmed and stripped of quotes; empty when there
/// is none.
pub open spec fn cookie_in(s: Seq<char>, name: Seq<char>) -> Seq<char>
    decreases s.len(),
{
    let part = before(s, ';');
    if holds(part, '=') && trim(before(part, '=')) == name {
        strip_char(trim(after(part, '=')), '"')
    } else if holds(s, ';') {
        proof {
            lemma_first_index(s, ';');
        }
        cookie_in(after(s, ';'), name)
    } else {
        seq![]
    }
}

/// The cookie `name` of a request, or empty.
pub open spec fn cookie_of(req: RequestHead, name: Seq<char>) -> Seq<char> {
    cookie_in(header_or_empty(req, "cookie"@), name)
}

/// The query parameter `name` of a request, or empty.
pub open spec fn query_param_of(req: RequestHead, name: Seq<char>) -> Seq<char> {
    match req.query {
        Some(q) => form_in(q@, name),
        None => form_in(Seq::empty(), name),
    }
}

/// The client's address: the first `X-Forwarded-For` entry, trimmed, when
/// that is not empty; else the peer address; else empty.
pub open spec fn client_ip_of(req: RequestHead) -> Seq<char> {
    let first = match header_text(req, "x-forwarded-for"@) {
        Some(v) => trim(before(v, ',')),
        None => Seq::empty(),
    };
    if first.len() > 0 {
        first
    } else {
        match req.peer_ip {
            Some(p) => p@,
            None => Seq::empty(),
        }
    }
}

fn hex_digit(b: u8) -> (r: Option<u8>)
    ensures
        r == hex_digit_value(b),
{
    if 0x30 <= b && b <= 0x39 {
        Some(b - 0x30)
    } else if 0x61 <= b && b <= 0x66 {
        Some(b - 0x61 + 10)
    } else if 0x41 <= b && b <= 0x46 {
        Some(b - 0x41 + 10)
    } else {
        None
    }
}

fn decode_pair(hi: u8, lo: u8) -> (r: Option<u8>)
    ensures
        r == hex_pair(hi, lo),
{
    if hi == 0x2b {
        hex_digit(lo)
    } else {
        match (hex_digit(hi), hex_digit(lo)) {
            (Some(h), Some(l)) => Some(h * 16 + l),
            _ => None,
        }
    }
}

/// Decodes one form-encoded component.
pub fn percent_decode(s: &str) -> (out: String)
    ensures
        out@ == pct_text(s@),
{
    let bytes = s.as_bytes();
    let n = bytes.len();
    let ghost b = bytes@;
    let mut out: Vec<u8> = Vec::new();
    let mut i: usize = 0;
    assert(b.subrange(0, n as int) =~= b);
    while i < n
        invariant
            0 <= i <= n == b.len(),
            b == bytes@,
            pct_decode(b) == out@ + pct_decode(b.subrange(i as int, n as int)),
        decreases n - i,
    {
        let ghost rest = b.subrange(i as int, n as int);
        let c = bytes[i];
        if c == 0x2b {
            out.push(0x20);
            assert(rest.drop_first() =~= b.subrange(i + 1, n as int));
            i = i + 1;
        } else if c == 0x25 && n - i > 2 && decode_pair(bytes[i + 1], bytes[i + 2]).is_some() {
            let v = decode_pair(bytes[i + 1], bytes[i + 2]).unwrap();
            out.push(v);
            assert(rest.subrange(3, rest.len() as int) =~= b.subrange(i + 3, n as int));
            i = i + 3;
        } else {
            out.push(c);
            assert(rest.drop_first() =~= b.subrange(i + 1, n as int));
            i = i + 1;
        }
        assert(pct_decode(b) == out@ + pct_decode(b.subrange(i as int, n as int)));
    }
    assert(b.subrange(n as int, n as int) =~= Seq::<u8>::empty());
    assert(out@ =~= pct_decode(b));
    lossy_string(out.as_slice())
}

/// Read `name` out of an `application/x-www-form-urlencoded` string.
pub fn form_value(encoded: &str, name: &str) -> (v: String)
    ensures
        v@ == form_in(encoded@, name@),
{
    let cs = chars_of(encoded);
    let n = cs.len();
    let want = String::from_str(name);
    let mut start: usize = 0;
    assert(cs@.subrange(0, n as int) =~= cs@);
    loop
        invariant
            0 <= start <= n == cs@.len(),
            want@ == name@,
            cs@ == encoded@,
            form_in(cs@, name@) == form_in(cs@.subrange(start as int, n as int), name@),
        decreases n - start,
    {
        let ghost s = cs@.subrange(start as int, n as int);
        let e = find_char(&cs, '&', start);
        let pair = sub_chars(&cs, start, e);
        assert(pair@ =~= before(s, '&'));
        let k = find_char(&pair, '=', 0);
        assert(pair@.subrange(0, pair@.len() as int) =~= pair@);
        if k < pair.len() {
            let key = percent_decode(string_of(&pair, 0, k).as_str());
            assert(pair@.subrange(0, k as int) =~= before(pair@, '='));
            if key == want {
                let value = percent_decode(string_of(&pair, k + 1, pair.len()).as_str());
                assert(pair@.subrange(k + 1, pair@.len() as int) =~= after(pair@, '='));
                return value;
            }
        }
        if e == n {
            return String::new();
        }
        proof {
            lemma_first_index(s, '&');
            assert(after(s, '&') =~= cs@.subrange(e + 1, n as int));
        }
        start = e + 1;
    }
}

/// Read a single cookie off the request, or `""` if absent.
pub fn cookie(req: &RequestHead, name: &str) -> (v: String)
    ensures
        v@ == cookie_of(*req, name@),
{
    let header = req.header_or_empty("cookie");
    let cs = chars_of(header.as_str());
    let n = cs.len();
    let want = chars_of(name);
    let mut start: usize = 0;
    assert(cs@.subrange(0, n as int) =~= cs@);
    loop
        invariant
            0 <= start <= n == cs@.len(),
            want@ == name@,
            cs@ == header_or_empty(*req, "cookie"@),
            cookie_in(cs@, name@) == cookie_in(cs@.subrange(start as int, n as int), name@),
        decreases n - start,
    {
        let ghost s = cs@.subrange(start as int, n as int);
        let e = find_char(&cs, ';', start);
        let part = sub_chars(&cs, start, e);
        assert(part@ =~= before(s, ';'));
        let k = find_char(&part, '=', 0);
        assert(part@.subrange(0, part@.len() as int) =~= part@);
        if k < part.len() {
            let key = trim_chars(&sub_chars(&part, 0, k));
            assert(part@.subrange(0, k as int) =~= before(part@, '='));
            if crate::text::same_chars(&key, &want) {
                let raw = sub_chars(&part, k + 1, part.len());
                assert(raw@ =~= after(part@, '='));
                let value = strip_chars(&trim_chars(&raw), '"');
                return string_of(&value, 0, value.len());
            }
        }
        if e == n {
            return String::new();
        }
        proof {
            lemma_first_index(s, ';');
            assert(after(s, ';') =~= cs@.subrange(e + 1, n as int));
        }
        start = e + 1;
    }
}

/// Read the query parameter `name` off the request, or `""` if absent.
pub fn query_param(req: &RequestHead, name: &str) -> (v: String)
    ensures
        v@ == query_param_of(*req, name@),
{
    match &req.query {
        Some(q) => form_value(q.as_str(), name),
        None => {
            proof {
                reveal_strlit("");
            }
            form_value("", name)
        },
    }
}

/// The client's address: first `X-Forwarded-For` entry, else the peer
/// address.
pub fn client_ip(req: &RequestHead) -> (ip: String)
    ensures
        ip@ == client_ip_of(*req),
{
    let first: Vec<char> = match req.header("x-forwarded-for") {
        Some(v) => {
            let cs = chars_of(v.as_str());
            let e = find_char(&cs, ',', 0);
            assert(cs@.subrange(0, cs@.len() as int) =~= cs@);
            let head = sub_chars(&cs, 0, e);
            trim_chars(&head)
        },
        None => Vec::new(),
    };
    if first.len() > 0 {
        return string_of(&first, 0, first.len());
    }
    match &req.peer_ip {
        Some(p) => p.clone(),
        None => String::new(),
    }
}

} // verus!
