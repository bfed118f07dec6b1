//! The relying-service side: classification of the authority's responses and
//! the faithful relay of its failures.
//!
//! A relying service never verifies credentials itself: it forwards the
//! Authorization header to the authority and must hand the authority's
//! failure back to its own caller unchanged — status, body bytes, content
//! type, and the `WWW-Authenticate` challenge on a 401. The network call
//! itself lives at the serving edge; everything decided about a response is
//! here.

use vstd::prelude::*;
use vstd::slice::slice_to_vec;
use vstd::string::StringSliceAdditionalSpecFns;
use vstd::string::{StrSliceExecFns, StringExecFns};

use crate::utility::{envelope_json_of, is_single_error, single_error, ApiError, HttpEnvelope};

verus! {

/// A failed remote call: either no response was obtained (`Error`), or the
/// authority answered with a failure that must be relayed verbatim.
#[derive(Debug)]
pub enum RestError {
    /// Transport-level failure or an unreadable response: terminal for the
    /// request, surfaced as a generic internal error.
    Error,
    /// An upstream failure to relay: its challenge, body bytes, content type
    /// and status, exactly as received.
    Response {
        authenticate: Option<String>,
        body: Vec<u8>,
        content_type: Option<String>,
        status_code: u16,
    },
}

/// The view of an optional owned string.
pub open spec fn opt_string_view(o: Option<String>) -> Option<Seq<char>> {
    match o {
        Some(s) => Some(s@),
        None => None,
    }
}

/// The relayed status of a failure (0 for the transport case, which carries
/// none).
pub open spec fn response_status(e: RestError) -> u16 {
    match e {
        RestError::Response { status_code, .. } => status_code,
        RestError::Error => 0,
    }
}

/// The relayed body bytes of a failure.
pub open spec fn response_body(e: RestError) -> Seq<u8> {
    match e {
        RestError::Response { body, .. } => body@,
        RestError::Error => Seq::empty(),
    }
}

/// The relayed content type of a failure.
pub open spec fn response_ct(e: RestError) -> Option<Seq<char>> {
    match e {
        RestError::Response { content_type, .. } => opt_string_view(content_type),
        RestError::Error => None,
    }
}

/// The relayed challenge header of a failure.
pub open spec fn response_auth(e: RestError) -> Option<Seq<char>> {
    match e {
        RestError::Response { authenticate, .. } => opt_string_view(authenticate),
        RestError::Error => None,
    }
}

impl RestError {
    /// A relayable failure with these parts and no challenge.
    pub fn response(body: &[u8], content_type: Option<&str>, status_code: u16) -> (r: Self)
        ensures
            r is Response,
            response_auth(r) is None,
            response_body(r) == body@,
            response_ct(r) == (match content_type {
                Some(s) => Some(s@),
                None => None::<Seq<char>>,
            }),
            response_status(r) == status_code,
    {
        RestError::Response {
            authenticate: None,
            body: slice_to_vec(body),
            content_type: match content_type {
                Some(s) => Some(s.to_owned()),
                None => None,
            },
            status_code,
        }
    }

    /// The generic failure a relying service synthesizes when the upstream
    /// gave it nothing relayable.
    pub fn internal_server_error() -> (r: Self)
        ensures
            r is Response,
            response_auth(r) is None,
            response_body(r) == "Internal server error".spec_bytes(),
            response_ct(r) == Some("text/plain; charset=UTF-8"@),
            response_status(r) == 500,
    {
        let body = StrSliceExecFns::as_bytes_vec("Internal server error");
        RestError::Response {
            authenticate: None,
            body,
            content_type: Some("text/plain; charset=UTF-8".to_owned()),
            status_code: 500,
        }
    }

    /// Attaches a challenge header to a relayable failure; the transport
    /// case carries none, so it is excluded.
    pub fn authenticate(self, value: &str) -> (r: Self)
        requires
            self is Response,
        ensures
            r is Response,
            response_auth(r) matches Some(a) && a == value@,
            response_body(r) == response_body(self),
            response_ct(r) == response_ct(self),
            response_status(r) == response_status(self),
    {
        match self {
            RestError::Response { body, content_type, status_code, .. } => RestError::Response {
                authenticate: Some(value.to_owned()),
                body,
                content_type,
                status_code,
            },
            RestError::Error => RestError::Error,
        }
    }
}

/// What the authority sent back, as plain values: its status, content type,
/// and body bytes (`None` when reading the body failed).
pub struct UpstreamResponse {
    pub status_code: u16,
    pub content_type: Option<String>,
    pub body: Option<Vec<u8>>,
}

/// Whether `e` relays `resp` verbatim with the given challenge: same status,
/// same body bytes, same content type. An unreadable body degrades to the
/// transport failure.
pub open spec fn relayed_from(e: RestError, resp: UpstreamResponse, auth: Option<Seq<char>>) -> bool {
    match resp.body {
        Some(b) => e is Response && response_status(e) == resp.status_code && response_body(e) == b@
            && response_ct(e) == opt_string_view(resp.content_type) && response_auth(e) == auth,
        None => e is Error,
    }
}

/// Turns an upstream failure response into the error to relay, preserving
/// status, body and content type, and attaching the given challenge.
pub fn relay_error(response: UpstreamResponse, auth_header: Option<&str>) -> (r: RestError)
    ensures
        relayed_from(
            r,
            response,
            match auth_header {
                Some(a) => Some(a@),
                None => None::<Seq<char>>,
            },
        ),
{
    let status = response.status_code;
    let content_type = response.content_type;
    match response.body {
        Some(body) => {
            let e = RestError::Response {
                authenticate: None,
                body,
                content_type,
                status_code: status,
            };
            match auth_header {
                Some(value) => e.authenticate(value),
                None => e,
            }
        },
        None => RestError::Error,
    }
}

/// Whether a status is a success in the 2xx sense.
pub open spec fn is_success(status: u16) -> bool {
    200 <= status < 300
}

/// Decides a "current user" response: a successful body is handed on for
/// decoding; a failure is relayed with the `Basic` challenge; a transport
/// failure or unreadable body is the generic error.
pub fn resolve_user_outcome(sent: Option<UpstreamResponse>) -> (r: Result<Vec<u8>, RestError>)
    ensures
        match sent {
            None => r == Err::<Vec<u8>, RestError>(RestError::Error),
            Some(resp) => if is_success(resp.status_code) {
                match resp.body {
                    Some(b) => r matches Ok(v) && v == b,
                    None => r == Err::<Vec<u8>, RestError>(RestError::Error),
                }
            } else {
                r matches Err(e) && relayed_from(e, resp, Some("Basic"@))
            },
        },
{
    let resp = match sent {
        None => {
            return Err(RestError::Error);
        },
        Some(resp) => resp,
    };
    if 200 <= resp.status_code && resp.status_code < 300 {
        match resp.body {
            Some(b) => Ok(b),
            None => Err(RestError::Error),
        }
    } else {
        Err(relay_error(resp, Some("Basic")))
    }
}

/// Decides a "create link" response: a successful body is handed on; a
/// failure is relayed verbatim with the `Basic` challenge, under the same
/// relay contract as every other authenticated call.
pub fn create_link_outcome(sent: Option<UpstreamResponse>) -> (r: Result<Vec<u8>, RestError>)
    ensures
        match sent {
            None => r == Err::<Vec<u8>, RestError>(RestError::Error),
            Some(resp) => if is_success(resp.status_code) {
                match resp.body {
                    Some(b) => r matches Ok(v) && v == b,
                    None => r == Err::<Vec<u8>, RestError>(RestError::Error),
                }
            } else {
                r matches Err(e) && relayed_from(e, resp, Some("Basic"@))
            },
        },
{
    resolve_user_outcome(sent)
}

/// Decides a "resolve link" response: 200 hands the body on for decoding; an
/// upstream 404 becomes a locally synthesized 401-class failure, so a link
/// that does not resolve is indistinguishable from "not authorized"; every
/// other failure class is relayed verbatim.
pub fn resolve_link_outcome(sent: Option<UpstreamResponse>) -> (r: Result<Vec<u8>, RestError>)
    ensures
        match sent {
            None => r == Err::<Vec<u8>, RestError>(RestError::Error),
            Some(resp) => if resp.status_code == 200 {
                match resp.body {
                    Some(b) => r matches Ok(v) && v == b,
                    None => r == Err::<Vec<u8>, RestError>(RestError::Error),
                }
            } else if resp.status_code == 404 {
                r matches Err(e) && e is Response && response_status(e) == 401 && response_ct(e)
                    == Some("application/json"@) && response_auth(e) is None && (exists|
                    e2: crate::errors::Error,
                |
                    is_single_error(e2, 401, "Message link not found"@) && response_body(e)
                        == envelope_json_of(seq![e2]))
            } else {
                r matches Err(e) && relayed_from(e, resp, None::<Seq<char>>)
            },
        },
{
    let resp = match sent {
        None => {
            return Err(RestError::Error);
        },
        Some(resp) => resp,
    };
    if resp.status_code == 200 {
        match resp.body {
            Some(b) => Ok(b),
            None => Err(RestError::Error),
        }
    } else if resp.status_code == 404 {
        let api = single_error(401, "Message link not found");
        let env = api.to_response();
        Err(RestError::Response {
            authenticate: None,
            body: env.body,
            content_type: Some("application/json".to_owned()),
            status_code: 401,
        })
    } else {
        Err(relay_error(resp, None))
    }
}

/// Decides a "create message" response: a successful body is handed on; a
/// failure is relayed with the `Basic` challenge.
pub fn create_message_outcome(sent: Option<UpstreamResponse>) -> (r: Result<Vec<u8>, RestError>)
    ensures
        match sent {
            None => r == Err::<Vec<u8>, RestError>(RestError::Error),
            Some(resp) => if is_success(resp.status_code) {
                match resp.body {
                    Some(b) => r matches Ok(v) && v == b,
                    None => r == Err::<Vec<u8>, RestError>(RestError::Error),
                }
            } else {
                r matches Err(e) && relayed_from(e, resp, Some("Basic"@))
            },
        },
{
    resolve_user_outcome(sent)
}

/// Whether an HTTP envelope carries exactly what a relayable failure holds.
pub open spec fn envelope_matches(env: HttpEnvelope, e: RestError) -> bool {
    env.status_code == response_status(e) && env.body@ == response_body(e) && opt_string_view(
        env.www_authenticate,
    ) == response_auth(e) && opt_string_view(env.content_type) == response_ct(e)
}

/// Shapes a remote failure for this service's own caller: a relayed failure
/// keeps its status, body, content type and challenge byte for byte; the
/// transport failure becomes the generic 500 envelope.
pub fn map_auth_response(error: RestError) -> (r: HttpEnvelope)
    ensures
        error is Response ==> envelope_matches(r, error),
        error is Error ==> r.status_code == 500 && r.www_authenticate is None && (exists|
            e2: crate::errors::Error,
        |
            is_single_error(e2, 500, "Internal server error"@) && r.body@ == envelope_json_of(
                seq![e2],
            )),
{
    match error {
        RestError::Error => single_error(500, "Internal server error").to_response(),
        RestError::Response { authenticate, body, content_type, status_code } => HttpEnvelope {
            status_code,
            www_authenticate: authenticate,
            content_type,
            body,
        },
    }
}

/// Relay transparency: when the authority's failure response was readable,
/// what this service returns to its own caller is byte-identical — same
/// status, same body bytes, same content type, and the challenge that was
/// attached (the `Basic` challenge of a relayed 401 is never dropped).
pub proof fn lemma_relay_transparency(
    resp: UpstreamResponse,
    auth: Option<Seq<char>>,
    e: RestError,
    env: HttpEnvelope,
)
    requires
        resp.body is Some,
        relayed_from(e, resp, auth),
        envelope_matches(env, e),
    ensures
        env.status_code == resp.status_code,
        env.body@ == resp.body.unwrap()@,
        opt_string_view(env.content_type) == opt_string_view(resp.content_type),
        opt_string_view(env.www_authenticate) == auth,
{
}

/// The current-user relay in one statement: for every readable upstream
/// failure, what `resolve_user_outcome` classifies and `map_auth_response`
/// emits carries the same status, the same body bytes and the same content
/// type as the authority's response, with the `Basic` challenge attached —
/// in particular the challenge of a relayed 401 is never dropped.
pub proof fn lemma_resolve_user_relay(resp: UpstreamResponse, e: RestError, env: HttpEnvelope)
    requires
        !is_success(resp.status_code),
        resp.body is Some,
        relayed_from(e, resp, Some("Basic"@)),
        envelope_matches(env, e),
    ensures
        env.status_code == resp.status_code,
        env.body@ == resp.body.unwrap()@,
        opt_string_view(env.content_type) == opt_string_view(resp.content_type),
        opt_string_view(env.www_authenticate) == Some("Basic"@),
{
    lemma_relay_transparency(resp, Some("Basic"@), e, env);
}

/// The authority's "current user" endpoint.
pub fn user_me_url(base_url: &str) -> (r: String)
    ensures
        r@ == base_url@ + "/users/@me"@,
{
    base_url.to_owned().concat("/users/@me")
}

/// The authority's by-token link endpoint.
pub fn link_url(base_url: &str, token: &str) -> (r: String)
    ensures
        r@ == base_url@ + "/links/"@ + token@,
{
    base_url.to_owned().concat("/links/").concat(token)
}

/// The authority's per-message link collection endpoint.
pub fn message_links_url(base_url: &str, message_id: &str) -> (r: String)
    ensures
        r@ == base_url@ + "/messages/"@ + message_id@ + "/links"@,
{
    base_url.to_owned().concat("/messages/").concat(message_id).concat("/links")
}

/// The message service's collection endpoint.
pub fn messages_url(base_url: &str) -> (r: String)
    ensures
        r@ == base_url@ + "/messages"@,
{
    base_url.to_owned().concat("/messages")
}

/// The authority's per-message single link endpoint.
pub fn message_link_url(base_url: &str, message_id: &str, token: &str) -> (r: String)
    ensures
        r@ == base_url@ + "/messages/"@ + message_id@ + "/links/"@ + token@,
{
    base_url.to_owned().concat("/messages/").concat(message_id).concat("/links/").concat(token)
}

} // verus!
