//! Stackure is the SDK for the Stackure authentication API.
//!
//! Stackure provides passwordless B2B authentication. This crate holds the
//! SDK's logic: input validation, reading sessions, cookies and forms off a
//! request, planning the calls to the API and reading their answers, the
//! retry policy, and the decisions of the authentication layer (sign-in
//! handoff, verification, refusals, logout). Each function states what it
//! does in its contract.

pub mod api;
pub mod client;
pub mod codec;
pub mod errors;
pub mod laws;
pub mod middleware;
pub mod request;
pub mod text;
pub mod transport;
pub mod types;
pub mod validation;

pub use api::{
    app_secret_from, base_url_from, call_headers, call_url, finish_parse, handle_response,
    send_magic_link, validate_session, validate_token, ApiCall, ApiMethod, Parsed, SessionStep,
};
pub use client::{client_ip, cookie, form_value, percent_decode, query_param, SESSION_COOKIE, TOKEN_PARAM};
pub use errors::{ErrorKind, StackureError};
pub use middleware::{
    auth, auth_step, checked_handoff, form_token, handoff, handoff_token, logout, rejection, user_from_request, verify, Auth,
    AuthLayer, Reply,
};
pub use request::{Header, HeaderField, RequestHead};
pub use transport::{next_step, Attempt, Step};
pub use types::{MagicLinkResponse, Session, User, VerifyError, VerifyResult};
pub use validation::{is_uuid, validate_email, validate_uuid};
