//! Types returned by the Stackure SDK.

use vstd::prelude::*;

verus! {

/// An authenticated Stackure user.
#[derive(Debug, Clone, PartialEq, Eq)]
pub struct User {
    /// Unique identifier for the user.
    pub user_id: String,
    /// User's email address.
    pub user_email: String,
    /// User's first name.
    pub user_first_name: String,
    /// User's last name.
    pub user_last_name: String,
    /// Permissions granted to the user for the current app.
    pub user_permissions: Vec<String>,
}

/// Successful magic-link response.
#[derive(Debug, Clone, PartialEq, Eq)]
pub struct MagicLinkResponse {
    /// Human-readable confirmation from the API.
    pub message: String,
}

/// Why a verification did not authenticate.
#[derive(Debug, Clone, PartialEq, Eq)]
pub struct VerifyError {
    /// HTTP status code: 401, 403, or 500.
    pub code: u16,
    /// Human-readable message.
    pub message: String,
    /// Where to send an unauthenticated browser to sign in.
    pub sign_in_url: String,
}

/// Outcome of a verification.
#[derive(Debug, Clone, PartialEq, Eq)]
pub struct VerifyResult {
    /// Whether the request carries a valid session.
    pub authenticated: bool,
    /// The user, when authenticated (also set on a 403).
    pub user: Option<User>,
    /// Populated when `authenticated` is `false`.
    pub error: Option<VerifyError>,
}

/// Raw session-validation response.
#[derive(Debug, Clone, PartialEq, Eq)]
pub struct Session {
    /// Whether Stackure recognised the session.
    pub authenticated: bool,
    /// The user, when authenticated.
    pub user: Option<User>,
    /// Where to send the browser to sign in, when not.
    pub sign_in_url: String,
}

impl Default for VerifyResult {
    fn default() -> (r: VerifyResult)
        ensures
            !r.authenticated,
            r.user is None,
            r.error is None,
    {
        VerifyResult { authenticated: false, user: None, error: None }
    }
}

impl Default for Session {
    fn default() -> (s: Session)
        ensures
            !s.authenticated,
            s.user is None,
            s.sign_in_url@ == Seq::<char>::empty(),
    {
        Session { authenticated: false, user: None, sign_in_url: String::new() }
    }
}

} // verus!
