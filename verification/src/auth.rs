//! The relying service's view of an authentication attempt: the presence
//! check on the Authorization header (the value itself is never inspected
//! here), and the failure value it relays from the authority.

use vstd::prelude::*;
use vstd::slice::slice_to_vec;
use vstd::string::StringSliceAdditionalSpecFns;

use crate::utility::{envelope_json_of, is_single_error, single_error, ApiError, HttpEnvelope};

verus! {

/// A failed authentication against the authority, as seen by a relying
/// service: a transport failure, or the authority's own response to relay.
#[derive(Debug)]
pub enum AuthError {
    /// No response was obtained.
    Error,
    /// The authority's failure response, to relay verbatim.
    Response {
        authenticate: Option<String>,
        body: Vec<u8>,
        content_type: Option<String>,
        status_code: u16,
    },
}

/// The relayed status of a failure (0 for the transport case).
pub open spec fn auth_status(e: AuthError) -> u16 {
    match e {
        AuthError::Response { status_code, .. } => status_code,
        AuthError::Error => 0,
    }
}

/// The relayed body bytes of a failure.
pub open spec fn auth_body(e: AuthError) -> Seq<u8> {
    match e {
        AuthError::Response { body, .. } => body@,
        AuthError::Error => Seq::empty(),
    }
}

/// The relayed content type of a failure.
pub open spec fn auth_ct(e: AuthError) -> Option<Seq<char>> {
    match e {
        AuthError::Response { content_type, .. } => crate::clients::opt_string_view(content_type),
        AuthError::Error => None,
    }
}

/// The relayed challenge of a failure.
pub open spec fn auth_challenge(e: AuthError) -> Option<Seq<char>> {
    match e {
        AuthError::Response { authenticate, .. } => crate::clients::opt_string_view(authenticate),
        AuthError::Error => None,
    }
}

impl AuthError {
    /// A relayable failure with these parts and no challenge.
    pub fn response(body: &[u8], content_type: Option<&str>, status_code: u16) -> (r: Self)
        ensures
            r is Response,
            auth_challenge(r) is None,
            auth_body(r) == body@,
            auth_ct(r) == (match content_type {
                Some(s) => Some(s@),
                None => None::<Seq<char>>,
            }),
            auth_status(r) == status_code,
    {
        AuthError::Response {
            authenticate: None,
            body: slice_to_vec(body),
            content_type: match content_type {
                Some(s) => Some(s.to_owned()),
                None => None,
            },
            status_code,
        }
    }

    /// Attaches a challenge header; the transport case carries none, so it
    /// is excluded.
    pub fn authenticate(self, value: &str) -> (r: Self)
        requires
            self is Response,
        ensures
            r is Response,
            auth_challenge(r) matches Some(a) && a == value@,
            auth_body(r) == auth_body(self),
            auth_ct(r) == auth_ct(self),
            auth_status(r) == auth_status(self),
    {
        match self {
            AuthError::Response { body, content_type, status_code, .. } => AuthError::Response {
                authenticate: Some(value.to_owned()),
                body,
                content_type,
                status_code,
            },
            AuthError::Error => AuthError::Error,
        }
    }
}

/// What the serving edge found in the request: no Authorization header, one
/// that is not readable text, or its value.
pub enum HeaderLookup {
    Missing,
    Undecodable,
    Value(String),
}

/// The presence check a relying service makes before calling the authority:
/// the value is handed on unread; a missing or unreadable header is a 401
/// with the Basic challenge.
pub fn get_auth_header(header: HeaderLookup) -> (r: Result<String, ApiError>)
    ensures
        match header {
            HeaderLookup::Value(s) => r == Ok::<String, ApiError>(s),
            HeaderLookup::Undecodable => r matches Err(e) && e.status == 401 && e.detail@
                == "Invalid authorization header"@,
            HeaderLookup::Missing => r matches Err(e) && e.status == 401 && e.detail@
                == "Missing authorization header"@,
        },
{
    match header {
        HeaderLookup::Value(s) => Ok(s),
        HeaderLookup::Undecodable => Err(single_error(401, "Invalid authorization header")),
        HeaderLookup::Missing => Err(single_error(401, "Missing authorization header")),
    }
}

/// Shapes an authentication failure for this service's own caller: a relayed
/// failure keeps status, body, content type and challenge; the transport
/// failure becomes the generic 500 envelope.
pub fn map_auth_response(error: AuthError) -> (r: HttpEnvelope)
    ensures
        error is Response ==> r.status_code == auth_status(error) && r.body@ == auth_body(error)
            && crate::clients::opt_string_view(r.www_authenticate) == auth_challenge(error)
            && crate::clients::opt_string_view(r.content_type) == auth_ct(error),
        error is Error ==> r.status_code == 500 && r.www_authenticate is None && (exists|
            e2: crate::errors::Error,
        |
            is_single_error(e2, 500, "Internal server error"@) && r.body@ == envelope_json_of(
                seq![e2],
            )),
{
    match error {
        AuthError::Error => single_error(500, "Internal server error").to_response(),
        AuthError::Response { authenticate, body, content_type, status_code } => HttpEnvelope {
            status_code,
            www_authenticate: authenticate,
            content_type,
            body,
        },
    }
}

} // verus!
