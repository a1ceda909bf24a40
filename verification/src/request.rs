//! The parts of an incoming request that the SDK reads.

use vstd::prelude::*;

use crate::text::push_char;
use crate::types::User;

verus! {

/// One request header: its lowercase name and its raw value bytes.
#[derive(Debug, Clone)]
pub struct HeaderField {
    /// The header's name, in lowercase.
    pub name: String,
    /// The header's value, as sent.
    pub value: Vec<u8>,
}

/// The head of an incoming request, as plain values.
#[derive(Debug, Clone)]
pub struct RequestHead {
    /// The method, such as `GET` or `POST`.
    pub method: String,
    /// The URI's scheme, when the request line carried one.
    pub scheme: Option<String>,
    /// The URI's path.
    pub path: String,
    /// The URI's query, without the `?`.
    pub query: Option<String>,
    /// The headers, in the order the request carried them.
    pub headers: Vec<HeaderField>,
    /// The peer's IP address as text, when the server knows it.
    pub peer_ip: Option<String>,
    /// The user the auth layer attached, if any.
    pub user: Option<User>,
}

/// The value of the first header called `name`, as raw bytes.
pub open spec fn header_raw(hs: Seq<HeaderField>, name: Seq<char>) -> Option<Seq<u8>>
    decreases hs.len(),
{
    if hs.len() == 0 {
        None
    } else if hs[0].name@ == name {
        Some(hs[0].value@)
    } else {
        header_raw(hs.drop_first(), name)
    }
}

/// A byte `HeaderValue::to_str` accepts: printable ASCII or tab.
pub open spec fn visible_ascii(b: u8) -> bool {
    (32 <= b < 127) || b == 9
}

/// Bytes read as ASCII characters.
pub open spec fn ascii_text(b: Seq<u8>) -> Seq<char> {
    Seq::new(b.len(), |i: int| b[i] as char)
}

/// The first header called `name` as text: present, and made of visible
/// ASCII only.
pub open spec fn header_text(req: RequestHead, name: Seq<char>) -> Option<Seq<char>> {
    match header_raw(req.headers@, name) {
        Some(b) => if forall|i: int| 0 <= i < b.len() ==> visible_ascii(#[trigger] b[i]) {
            Some(ascii_text(b))
        } else {
            None
        },
        None => None,
    }
}

/// The first header called `name` as text, or nothing.
pub open spec fn header_or_empty(req: RequestHead, name: Seq<char>) -> Seq<char> {
    match header_text(req, name) {
        Some(t) => t,
        None => Seq::empty(),
    }
}

impl RequestHead {
    /// The first header called `name` as text, when it is present and made
    /// of visible ASCII only.
    pub fn header(&self, name: &str) -> (r: Option<String>)
        ensures
            r matches Some(s) ==> header_text(*self, name@) == Some(s@),
            r is None ==> header_text(*self, name@) is None,
    {
        let want = String::from_str(name);
        let mut i: usize = 0;
        assert(self.headers@.subrange(0, self.headers@.len() as int) =~= self.headers@);
        while i < self.headers.len()
            invariant
                0 <= i <= self.headers@.len(),
                want@ == name@,
                header_raw(self.headers@, name@) == header_raw(
                    self.headers@.subrange(i as int, self.headers@.len() as int),
                    name@,
                ),
            decreases self.headers@.len() - i,
        {
            let field = &self.headers[i];
            let ghost rest = self.headers@.subrange(i as int, self.headers@.len() as int);
            assert(rest[0] == *field);
            if field.name == want {
                return ascii_value(&field.value);
            }
            assert(rest.drop_first() =~= self.headers@.subrange(
                i + 1,
                self.headers@.len() as int,
            ));
            i = i + 1;
        }
        None
    }

    /// The first header called `name` as text, or `""`.
    pub fn header_or_empty(&self, name: &str) -> (s: String)
        ensures
            s@ == header_or_empty(*self, name@),
    {
        match self.header(name) {
            Some(s) => s,
            None => String::new(),
        }
    }
}

/// `bytes` as text when every byte is visible ASCII.
fn ascii_value(bytes: &Vec<u8>) -> (r: Option<String>)
    ensures
        r matches Some(s) ==> (forall|i: int|
            0 <= i < bytes@.len() ==> visible_ascii(#[trigger] bytes@[i])) && s@ == ascii_text(
            bytes@,
        ),
        r is None ==> !(forall|i: int|
            0 <= i < bytes@.len() ==> visible_ascii(#[trigger] bytes@[i])),
{
    let mut s = String::new();
    let mut i: usize = 0;
    while i < bytes.len()
        invariant
            0 <= i <= bytes@.len(),
            forall|j: int| 0 <= j < i ==> visible_ascii(#[trigger] bytes@[j]),
            s@ == ascii_text(bytes@.subrange(0, i as int)),
        decreases bytes@.len() - i,
    {
        let b = bytes[i];
        if !((32 <= b && b < 127) || b == 9) {
            return None;
        }
        push_char(&mut s, b as char);
        i = i + 1;
        assert(s@ =~= ascii_text(bytes@.subrange(0, i as int)));
    }
    assert(bytes@.subrange(0, bytes@.len() as int) =~= bytes@);
    Some(s)
}

/// A header to send: name and value as text.
#[derive(Debug, Clone)]
pub struct Header {
    /// The header's name.
    pub name: String,
    /// The header's value.
    pub value: String,
}

/// A list of headers as pairs of texts.
pub open spec fn header_views(hs: Seq<Header>) -> Seq<(Seq<char>, Seq<char>)> {
    hs.map_values(|h: Header| (h.name@, h.value@))
}

/// A header with the given name and value.
pub fn header(name: &str, value: String) -> (h: Header)
    ensures
        h.name@ == name@,
        h.value@ == value@,
{
    Header { name: String::from_str(name), value }
}

} // verus!
