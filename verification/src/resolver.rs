//! The authority-side resolver: from a raw Authorization header to an
//! authenticated user, or to a structured failure.
//!
//! Unknown usernames and wrong passwords yield the same failure, so account
//! names cannot be probed; a corrupt stored hash is an internal failure,
//! never a mismatch; insufficient flags are a distinct `Forbidden` failure,
//! never conflated with authentication.

use vstd::prelude::*;
use vstd::string::StringSliceAdditionalSpecFns;
use vstd::utf8::encode_utf8;

use crate::codec::{basic_decode_spec, decode, BasicParseError};
use crate::crypto::Hasher;
use crate::store::{link_by_pair, link_expired, user_by_name, AuthUser, Database, MessageLink};
use crate::utility::{single_error, unauthorized_error, ApiError};

verus! {

/// A failed resolution attempt, constructed at the point of failure and
/// shaped into a wire envelope only at the service boundary.
#[derive(Clone, Copy, Debug, PartialEq, Eq, Structural)]
pub enum AuthFailure {
    /// No Authorization header was sent.
    HeaderMissing,
    /// The header was sent but does not decode as a Basic credential.
    HeaderMalformed(BasicParseError),
    /// Unknown username or wrong password, indistinguishably.
    CredentialMismatch,
    /// Authenticated, but the account lacks the required flags.
    Forbidden,
    /// No capability link with that token and resource, or an expired one;
    /// surfaced to end clients as a mismatch-class failure.
    LinkNotFound,
    /// A storage error, a corrupt stored hash, or a hashing backend failure.
    InternalFailure,
}

/// The admin flag bit: an account carrying it passes every flags check.
pub const ADMIN_FLAG: i64 = 2;

/// The HTTP status a failure maps to.
pub open spec fn failure_status(f: AuthFailure) -> u16 {
    match f {
        AuthFailure::HeaderMissing => 401,
        AuthFailure::HeaderMalformed(_) => 401,
        AuthFailure::CredentialMismatch => 401,
        AuthFailure::Forbidden => 403,
        AuthFailure::LinkNotFound => 401,
        AuthFailure::InternalFailure => 500,
    }
}

/// The detail text a failure maps to. A missing link reads exactly like a
/// credential mismatch, so tokens cannot be probed.
pub open spec fn failure_detail(f: AuthFailure) -> Seq<char> {
    match f {
        AuthFailure::HeaderMissing => "Missing authorization header"@,
        AuthFailure::HeaderMalformed(e) => match e {
            BasicParseError::WrongScheme => "Expected a Basic authorization token"@,
            _ => "Invalid authorization header"@,
        },
        AuthFailure::CredentialMismatch => "Incorrect username or password"@,
        AuthFailure::Forbidden => "You cannot perform this action"@,
        AuthFailure::LinkNotFound => "Incorrect username or password"@,
        AuthFailure::InternalFailure => "Internal server error"@,
    }
}

/// Shapes a failure for the wire: its status and detail. The response
/// envelope is a function of the failure value alone, so two equal failures
/// are observably identical.
pub fn failure_response(f: &AuthFailure) -> (r: ApiError)
    ensures
        r.status == failure_status(*f),
        r.detail@ == failure_detail(*f),
{
    match f {
        AuthFailure::HeaderMissing => unauthorized_error("Missing authorization header"),
        AuthFailure::HeaderMalformed(e) => match e {
            BasicParseError::WrongScheme => unauthorized_error(
                "Expected a Basic authorization token",
            ),
            _ => unauthorized_error("Invalid authorization header"),
        },
        AuthFailure::CredentialMismatch => unauthorized_error("Incorrect username or password"),
        AuthFailure::Forbidden => single_error(403, "You cannot perform this action"),
        AuthFailure::LinkNotFound => unauthorized_error("Incorrect username or password"),
        AuthFailure::InternalFailure => single_error(500, "Internal server error"),
    }
}

/// What resolution decides when the store and the hashing backend both
/// answer: decode the header, look the username up, test the password.
pub open spec fn resolve_user_model<H: Hasher>(
    users: Seq<AuthUser>,
    hasher: H,
    header: Option<Seq<char>>,
) -> Result<AuthUser, AuthFailure> {
    match header {
        None => Err(AuthFailure::HeaderMissing),
        Some(h) => match basic_decode_spec(h) {
            Err(e) => Err(AuthFailure::HeaderMalformed(e)),
            Ok((username, password)) => match user_by_name(users, username) {
                None => Err(AuthFailure::CredentialMismatch),
                Some(user) => if hasher.accepts(user.password_hash@, encode_utf8(password)) {
                    Ok(user)
                } else {
                    Err(AuthFailure::CredentialMismatch)
                },
            },
        },
    }
}

/// Whether the header decodes as a Basic credential at all; an internal
/// failure can only stand in for an answer past that point.
pub open spec fn header_decodes(header: Option<Seq<char>>) -> bool {
    match header {
        None => false,
        Some(h) => basic_decode_spec(h) is Ok,
    }
}

/// The view of an optional header value.
pub open spec fn header_view(header: Option<&str>) -> Option<Seq<char>> {
    match header {
        Some(s) => Some(s@),
        None => None,
    }
}

/// Resolves a raw Authorization header to the authenticated user. The
/// result is the model's answer, except that a storage or hashing-backend
/// failure past the decode step becomes `InternalFailure`.
pub fn resolve_user<D: Database, H: Hasher>(db: &D, hasher: &H, header: Option<&str>) -> (r: Result<
    AuthUser,
    AuthFailure,
>)
    requires
        db.inv(),
    ensures
        r == resolve_user_model(db.users(), *hasher, header_view(header)) || (r == Err::<
            AuthUser,
            AuthFailure,
        >(AuthFailure::InternalFailure) && header_decodes(header_view(header))),
{
    let h = match header {
        None => {
            return Err(AuthFailure::HeaderMissing);
        },
        Some(h) => h,
    };
    let cred = match decode(h) {
        Err(e) => {
            return Err(AuthFailure::HeaderMalformed(e));
        },
        Ok(c) => c,
    };
    let user = match db.get_user_by_username(cred.username.as_str()) {
        Err(_) => {
            return Err(AuthFailure::InternalFailure);
        },
        Ok(None) => {
            return Err(AuthFailure::CredentialMismatch);
        },
        Ok(Some(u)) => u,
    };
    match hasher.verify(user.password_hash.as_str(), cred.password.as_str()) {
        Ok(true) => Ok(user),
        Ok(false) => Err(AuthFailure::CredentialMismatch),
        Err(_) => Err(AuthFailure::InternalFailure),
    }
}

/// What a flags check decides: the wanted flags, or the admin bit.
pub open spec fn flags_pass(user_flags: i64, required: i64) -> bool {
    user_flags & required == required || user_flags & ADMIN_FLAG == ADMIN_FLAG
}

/// Resolution followed by a flags check.
pub open spec fn resolve_flags_model<H: Hasher>(
    users: Seq<AuthUser>,
    hasher: H,
    header: Option<Seq<char>>,
    flags: i64,
) -> Result<AuthUser, AuthFailure> {
    match resolve_user_model(users, hasher, header) {
        Ok(user) => if flags_pass(user.flags, flags) {
            Ok(user)
        } else {
            Err(AuthFailure::Forbidden)
        },
        Err(e) => Err(e),
    }
}

/// Resolves the header and then requires the wanted flags (or the admin
/// bit). Failing the check is `Forbidden` (403), never conflated with an
/// authentication failure (401).
pub fn resolve_flags<D: Database, H: Hasher>(
    db: &D,
    hasher: &H,
    header: Option<&str>,
    flags: i64,
) -> (r: Result<AuthUser, AuthFailure>)
    requires
        db.inv(),
    ensures
        r == resolve_flags_model(db.users(), *hasher, header_view(header), flags) || (r == Err::<
            AuthUser,
            AuthFailure,
        >(AuthFailure::InternalFailure) && header_decodes(header_view(header))),
{
    let user = match resolve_user(db, hasher, header) {
        Ok(u) => u,
        Err(e) => {
            return Err(e);
        },
    };
    // Wanted flag(s) or admin.
    if user.flags & flags == flags || user.flags & ADMIN_FLAG == ADMIN_FLAG {
        Ok(user)
    } else {
        Err(AuthFailure::Forbidden)
    }
}

/// What link resolution decides: an exact (resource, token) match that has
/// not expired. An expired link is rejected with the same generic failure as
/// an absent one, so expiry is not observable separately.
pub open spec fn resolve_link_model(
    links: Seq<MessageLink>,
    message_id: u128,
    token: Seq<char>,
    now: i64,
) -> Result<MessageLink, AuthFailure> {
    match link_by_pair(links, message_id, token) {
        None => Err(AuthFailure::LinkNotFound),
        Some(l) => if link_expired(l, now) {
            Err(AuthFailure::LinkNotFound)
        } else {
            Ok(l)
        },
    }
}

/// Resolves a capability link by its exact resource id and token, rejecting
/// expired links with the same generic failure as absent ones.
pub fn resolve_link<D: Database>(db: &D, message_id: u128, token: &str, now: i64) -> (r: Result<
    MessageLink,
    AuthFailure,
>)
    requires
        db.inv(),
    ensures
        r == resolve_link_model(db.links(), message_id, token@, now) || r == Err::<
            MessageLink,
            AuthFailure,
        >(AuthFailure::InternalFailure),
{
    let link = match db.get_message_link(message_id, token) {
        Err(_) => {
            return Err(AuthFailure::InternalFailure);
        },
        Ok(None) => {
            return Err(AuthFailure::LinkNotFound);
        },
        Ok(Some(l)) => l,
    };
    match link.expires_at {
        Some(t) => {
            if now > t {
                Err(AuthFailure::LinkNotFound)
            } else {
                Ok(link)
            }
        },
        None => Ok(link),
    }
}

/// An unknown username and a wrong password are indistinguishable: both
/// resolve to the very same `CredentialMismatch` value, and the wire
/// response is a function of that value alone, so status, body and challenge
/// are identical in the two cases.
pub proof fn lemma_mismatch_indistinguishable<H: Hasher>(
    users1: Seq<AuthUser>,
    users2: Seq<AuthUser>,
    hasher: H,
    h1: Seq<char>,
    h2: Seq<char>,
)
    requires
        basic_decode_spec(h1) matches Ok(c1) && user_by_name(users1, c1.0) is None,
        basic_decode_spec(h2) matches Ok(c2) && (user_by_name(users2, c2.0) matches Some(u)
            && !hasher.accepts(u.password_hash@, encode_utf8(c2.1))),
    ensures
        resolve_user_model(users1, hasher, Some(h1)) == resolve_user_model(
            users2,
            hasher,
            Some(h2),
        ),
        resolve_user_model(users1, hasher, Some(h1)) == Err::<AuthUser, AuthFailure>(
            AuthFailure::CredentialMismatch,
        ),
{
}

} // verus!
