//! Conversions the SDK takes from std, `serde_json` and `http`.
//!
//! The trusted items here (`lossy_string`, `json_object`, `header_value_ok`,
//! `status_code_ok`) each call one outside function, and their contracts are
//! what Verus believes of those functions. The spec functions state what
//! serde_json writes, and `bytes_of` is verified code.

use vstd::prelude::*;
use vstd::string::StringSliceAdditionalSpecFns;
use vstd::utf8::{decode_utf8, valid_utf8};

use crate::text::seq_join;

verus! {

/// What `String::from_utf8_lossy` makes of `bytes`.
pub uninterp spec fn utf8_lossy(bytes: Seq<u8>) -> Seq<char>;

/// The text of `bytes` read as UTF-8 with invalid sequences replaced: the
/// plain decoding when the bytes are valid UTF-8.
pub open spec fn lossy_text(bytes: Seq<u8>) -> Seq<char> {
    if valid_utf8(bytes) {
        decode_utf8(bytes)
    } else {
        utf8_lossy(bytes)
    }
}

/// Decodes `bytes` as UTF-8, replacing invalid sequences, through
/// `String::from_utf8_lossy`.
///
/// Claimed of it: bytes that are valid UTF-8 decode unchanged, as std
/// documents; other bytes give `utf8_lossy` of them, which is left unstated.
#[verifier::external_body]
pub fn lossy_string(bytes: &[u8]) -> (s: String)
    ensures
        valid_utf8(bytes@) ==> s@ == decode_utf8(bytes@),
        !valid_utf8(bytes@) ==> s@ == utf8_lossy(bytes@),
{
    String::from_utf8_lossy(bytes).into_owned()
}

/// The lower-case hex digit for `d` in `0..16`.
pub open spec fn hex_lower(d: int) -> char {
    if d < 10 {
        (48 + d) as char
    } else {
        (87 + d) as char
    }
}

/// How serde_json writes one character inside a JSON string: `"` and `\`
/// escaped, the control characters below U+0020 as `\b \t \n \f \r` or
/// `\u00xx`, everything else as it is.
pub open spec fn json_char(c: char) -> Seq<char> {
    if c == '"' {
        seq!['\\', '"']
    } else if c == '\\' {
        seq!['\\', '\\']
    } else if c == '\u{8}' {
        seq!['\\', 'b']
    } else if c == '\t' {
        seq!['\\', 't']
    } else if c == '\n' {
        seq!['\\', 'n']
    } else if c == '\u{c}' {
        seq!['\\', 'f']
    } else if c == '\r' {
        seq!['\\', 'r']
    } else if (c as u32) < 32 {
        seq!['\\', 'u', '0', '0', hex_lower((c as int) / 16), hex_lower((c as int) % 16)]
    } else {
        seq![c]
    }
}

/// The escaped contents of a JSON string holding `s`.
pub open spec fn json_escape(s: Seq<char>) -> Seq<char>
    decreases s.len(),
{
    if s.len() == 0 {
        Seq::empty()
    } else {
        json_escape(s.drop_last()) + json_char(s.last())
    }
}

/// The JSON string literal of `s`, quotes included, as serde_json writes it.
pub open spec fn json_string(s: Seq<char>) -> Seq<char> {
    seq!['"'] + json_escape(s) + seq!['"']
}

/// One member of a JSON object: the key, a colon, the value.
pub open spec fn json_member(pair: (Seq<char>, Seq<char>)) -> Seq<char> {
    json_string(pair.0) + seq![':'] + json_string(pair.1)
}

/// The compact JSON text of an object whose members are `pairs`, in order.
pub open spec fn json_object_text(pairs: Seq<(Seq<char>, Seq<char>)>) -> Seq<char> {
    seq!['{'] + seq_join(pairs.map_values(|p: (Seq<char>, Seq<char>)| json_member(p)), seq![','])
        + seq!['}']
}

/// Whether `a` sorts strictly before `b`, character by character, as
/// `String`'s order does.
pub open spec fn text_before(a: Seq<char>, b: Seq<char>) -> bool
    decreases a.len(),
{
    if b.len() == 0 {
        false
    } else if a.len() == 0 {
        true
    } else if a[0] != b[0] {
        (a[0] as u32) < (b[0] as u32)
    } else {
        text_before(a.drop_first(), b.drop_first())
    }
}

/// The texts of a list of string pairs.
pub open spec fn pair_views(pairs: Seq<(&str, &str)>) -> Seq<(Seq<char>, Seq<char>)> {
    pairs.map_values(|p: (&str, &str)| (p.0@, p.1@))
}

/// Whether each key sorts strictly before the next.
pub open spec fn keys_ascending(pairs: Seq<(Seq<char>, Seq<char>)>) -> bool {
    forall|i: int| 0 <= i < pairs.len() - 1 ==> text_before(#[trigger] pairs[i].0, pairs[i + 1].0)
}

/// The JSON object of string members `pairs`, built as a `serde_json::Map`
/// and printed by `serde_json::to_string`.
///
/// Claimed of it, as serde_json's serializer shows: a map is written as `{`,
/// its members joined by `,`, and `}`, each member as its key's and its
/// value's string literal around a `:`, in the map's key order; strings are
/// escaped as `json_char` says. With the keys given in ascending order that
/// order is the order given, whether the map sorts its keys or keeps their
/// insertion order; other inputs are not admitted. Serialising a map of
/// strings into memory does not fail, so the empty string on the error arm is
/// never produced.
#[verifier::external_body]
pub fn json_object(pairs: &[(&str, &str)]) -> (s: String)
    requires
        keys_ascending(pair_views(pairs@)),
    ensures
        s@ == json_object_text(pair_views(pairs@)),
{
    let map: serde_json::Map<String, serde_json::Value> = pairs
        .iter()
        .map(|(k, v)| ((*k).to_string(), serde_json::Value::String((*v).to_string())))
        .collect();
    match serde_json::to_string(&map) {
        Ok(s) => s,
        Err(_) => String::new(),
    }
}

/// A byte `http::HeaderValue` accepts: printable, tab, or 0x80 and above.
pub open spec fn header_byte_ok(b: u8) -> bool {
    (b >= 32 && b != 127) || b == 9
}

/// Whether `http::HeaderValue::from_str` accepts `s`.
///
/// Claimed of it, as http 1.x's source shows: it accepts exactly the text
/// whose UTF-8 bytes all pass `header_byte_ok`.
#[verifier::external_body]
pub fn header_value_ok(s: &str) -> (ok: bool)
    ensures
        ok == (forall|i: int|
            0 <= i < s.spec_bytes().len() ==> header_byte_ok(#[trigger] s.spec_bytes()[i])),
{
    http::HeaderValue::from_str(s).is_ok()
}

/// Whether `http::StatusCode::from_u16` accepts `code`.
///
/// Claimed of it, as http 1.x documents: it accepts 100 through 999.
#[verifier::external_body]
pub fn status_code_ok(code: u16) -> (ok: bool)
    ensures
        ok == (100 <= code <= 999),
{
    http::StatusCode::from_u16(code).is_ok()
}

/// The bytes of `s`.
pub fn bytes_of(s: &str) -> (b: Vec<u8>)
    ensures
        b@ == s.spec_bytes(),
{
    let raw = s.as_bytes();
    let mut out: Vec<u8> = Vec::new();
    let mut i: usize = 0;
    while i < raw.len()
        invariant
            0 <= i <= raw@.len(),
            out@ == raw@.subrange(0, i as int),
        decreases raw@.len() - i,
    {
        out.push(raw[i]);
        i = i + 1;
        assert(out@ =~= raw@.subrange(0, i as int));
    }
    assert(raw@.subrange(0, raw@.len() as int) =~= raw@);
    out
}

} // verus!
