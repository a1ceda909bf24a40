//! Stackure SDK error type.

use vstd::prelude::*;


verus! {

/// The category of a [`StackureError`], as a plain value for contracts.
#[derive(Clone, Copy, Debug, PartialEq, Eq, Structural)]
pub enum ErrorKind {
    Validation,
    Auth,
    Forbidden,
    Timeout,
    Network,
}

/// The single error type returned by every fallible SDK function.
///
/// Match on the variant to branch on category, or call
/// [`StackureError::code`] for the stable string the other Stackure SDKs
/// expose as `.code`.
#[derive(Clone, Debug, PartialEq, Eq)]
pub enum StackureError {
    /// Input validation failed before a request was made.
    Validation(String),
    /// The API returned 401 Unauthorized.
    Auth(String),
    /// The API returned 403 Forbidden.
    Forbidden(String),
    /// The request exceeded the 2-second timeout.
    Timeout(String),
    /// Any other transport or API failure.
    Network(String),
}

impl View for StackureError {
    type V = (ErrorKind, Seq<char>);

    open spec fn view(&self) -> (ErrorKind, Seq<char>) {
        match self {
            StackureError::Validation(m) => (ErrorKind::Validation, m@),
            StackureError::Auth(m) => (ErrorKind::Auth, m@),
            StackureError::Forbidden(m) => (ErrorKind::Forbidden, m@),
            StackureError::Timeout(m) => (ErrorKind::Timeout, m@),
            StackureError::Network(m) => (ErrorKind::Network, m@),
        }
    }
}

/// The stable lowercase name of an error category.
pub open spec fn kind_code(k: ErrorKind) -> Seq<char> {
    match k {
        ErrorKind::Validation => "validation"@,
        ErrorKind::Auth => "auth"@,
        ErrorKind::Forbidden => "forbidden"@,
        ErrorKind::Timeout => "timeout"@,
        ErrorKind::Network => "network"@,
    }
}

/// The text an error displays as: `stackure: <code>: <message>`.
pub open spec fn display_text(e: (ErrorKind, Seq<char>)) -> Seq<char> {
    "stackure: "@ + kind_code(e.0) + ": "@ + e.1
}

impl StackureError {
    /// The stable, lowercase category: `"validation"`, `"auth"`,
    /// `"forbidden"`, `"timeout"`, or `"network"`.
    pub fn code(&self) -> (c: &'static str)
        ensures
            c@ == kind_code(self@.0),
    {
        match self {
            StackureError::Validation(_) => "validation",
            StackureError::Auth(_) => "auth",
            StackureError::Forbidden(_) => "forbidden",
            StackureError::Timeout(_) => "timeout",
            StackureError::Network(_) => "network",
        }
    }

    /// The human-readable description, without the `stackure:` prefix.
    pub fn message(&self) -> (m: &str)
        ensures
            m@ == self@.1,
    {
        match self {
            StackureError::Validation(m) => m.as_str(),
            StackureError::Auth(m) => m.as_str(),
            StackureError::Forbidden(m) => m.as_str(),
            StackureError::Timeout(m) => m.as_str(),
            StackureError::Network(m) => m.as_str(),
        }
    }

    /// The category of this error.
    pub fn kind(&self) -> (k: ErrorKind)
        ensures
            k == self@.0,
    {
        match self {
            StackureError::Validation(_) => ErrorKind::Validation,
            StackureError::Auth(_) => ErrorKind::Auth,
            StackureError::Forbidden(_) => ErrorKind::Forbidden,
            StackureError::Timeout(_) => ErrorKind::Timeout,
            StackureError::Network(_) => ErrorKind::Network,
        }
    }

    /// The display text, `stackure: <code>: <message>`.
    pub fn to_string(&self) -> (s: String)
        ensures
            s@ == display_text(self@),
    {
        let mut s = String::from_str("stackure: ");
        s.append(self.code());
        s.append(": ");
        s.append(self.message());
        s
    }
}

/// A validation error carrying `text`.
pub fn validation(text: &str) -> (e: StackureError)
    ensures
        e@ == (ErrorKind::Validation, text@),
{
    StackureError::Validation(String::from_str(text))
}

/// A network error carrying `text`.
pub fn network(text: &str) -> (e: StackureError)
    ensures
        e@ == (ErrorKind::Network, text@),
{
    StackureError::Network(String::from_str(text))
}

} // verus!
