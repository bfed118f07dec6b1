//! Capability links: creation with a fresh unguessable bearer token,
//! resolution by exact (resource, token) match, and idempotent deletion.
//!
//! The manager is agnostic about the access bitmask: it only stores and
//! returns it; scope enforcement is the caller's responsibility.

use vstd::prelude::*;
use vstd::string::StringSliceAdditionalSpecFns;

use crate::store::{
    link_by_pair, link_by_token, lemma_link_by_pair_at, lemma_link_by_pair_none,
    lemma_link_by_token_spec, Database, MessageLink, SetError, StoreError,
};

verus! {

/// What URL-safe base64 encoding without padding yields for these bytes.
/// Names the result of `sodiumoxide::base64::encode` with
/// `Variant::UrlSafeNoPadding`, which depends on its input alone.
pub uninterp spec fn b64_urlsafe_of(b: Seq<u8>) -> Seq<char>;

/// Relies on `sodiumoxide::base64::encode` with `Variant::UrlSafeNoPadding`:
/// encodes three input bytes per four output characters, rounding up,
/// without padding.
#[verifier::external_body]
fn base64_urlsafe_encode(b: &[u8]) -> (r: String)
    ensures
        r@ == b64_urlsafe_of(b@),
        r@.len() == (b@.len() * 4 + 2) / 3,
{
    sodiumoxide::base64::encode(b, sodiumoxide::base64::Variant::UrlSafeNoPadding)
}

/// Relies on `sodiumoxide::randombytes::randombytes`: a vector of exactly
/// `n` bytes from the cryptographically secure random source. Nothing more
/// can be said of a random value.
#[verifier::external_body]
fn random_bytes(n: usize) -> (r: Vec<u8>)
    ensures
        r@.len() == n as nat,
{
    sodiumoxide::randombytes::randombytes(n)
}

/// Random bytes in a link token before encoding: long enough that guessing
/// is infeasible, since the token acts as a bearer secret.
pub const LINK_KEY_BYTES: usize = 32;

/// Characters of an encoded link token.
pub const LINK_KEY_CHARS: usize = 43;

/// A fresh opaque link token: 32 bytes from the secure random source,
/// URL-safe base64 encoded into 43 characters.
pub fn gen_link_key() -> (r: String)
    ensures
        r@.len() == LINK_KEY_CHARS,
{
    let b = random_bytes(LINK_KEY_BYTES);
    base64_urlsafe_encode(b.as_slice())
}

/// Creates a capability link scoping access to one message: generates a
/// fresh token and persists the row. A token collision is a retryable
/// conflict, never a silent overwrite.
pub fn create<D: Database>(
    db: &mut D,
    message_id: u128,
    access: i16,
    expires_at: Option<i64>,
    resource: Option<&str>,
) -> (r: Result<MessageLink, SetError>)
    requires
        old(db).inv(),
    ensures
        final(db).inv(),
        final(db).users() == old(db).users(),
        final(db).messages() == old(db).messages(),
        match r {
            Ok(l) => l.message_id == message_id && l.access == access && l.expires_at == expires_at
                && (match resource {
                Some(s) => l.resource matches Some(rs) && rs@ == s@,
                None => l.resource is None,
            }) && l.token@.len() == LINK_KEY_CHARS && link_by_token(old(db).links(), l.token@)
                is None && final(db).links() == old(db).links().push(l),
            // A conflict is a collision of the freshly generated token with a
            // stored one: the retryable condition, never a silent overwrite.
            Err(SetError::Conflict) => final(db).links() == old(db).links() && (exists|
                t: Seq<char>,
            |
                t.len() == LINK_KEY_CHARS && #[trigger] link_by_token(old(db).links(), t) is Some),
            Err(SetError::Unknown(_)) => final(db).links() == old(db).links(),
        },
{
    let token = gen_link_key();
    let ghost t = token@;
    let r = db.set_message_link(message_id, token.as_str(), access, expires_at, resource);
    proof {
        if r matches Err(SetError::Conflict) {
            assert(t.len() == LINK_KEY_CHARS && link_by_token(old(db).links(), t) is Some);
        }
    }
    r
}

/// Resolves a link by its exact resource id and token: a pure read.
pub fn resolve<D: Database>(db: &D, message_id: u128, token: &str) -> (r: Result<
    Option<MessageLink>,
    StoreError,
>)
    requires
        db.inv(),
    ensures
        r matches Ok(o) ==> o == link_by_pair(db.links(), message_id, token@),
{
    db.get_message_link(message_id, token)
}

/// Deletes a link; idempotent, and says whether a row existed.
pub fn delete<D: Database>(db: &mut D, message_id: u128, token: &str) -> (r: Result<
    bool,
    StoreError,
>)
    requires
        old(db).inv(),
    ensures
        final(db).inv(),
        final(db).users() == old(db).users(),
        final(db).messages() == old(db).messages(),
        match r {
            Ok(true) => link_by_pair(old(db).links(), message_id, token@) is Some && (exists|
                i: int,
            |
                0 <= i < old(db).links().len() && (#[trigger] old(db).links()[i]).message_id
                    == message_id && old(db).links()[i].token@ == token@ && final(db).links()
                    == old(db).links().remove(i)),
            Ok(false) => link_by_pair(old(db).links(), message_id, token@) is None
                && final(db).links() == old(db).links(),
            Err(_) => final(db).links() == old(db).links(),
        },
{
    let r = db.delete_message_link(message_id, token);
    proof {
        if r matches Ok(true) {
            let i = choose|i: int|
                0 <= i < old(db).links().len() && (#[trigger] old(db).links()[i]).message_id
                    == message_id && old(db).links()[i].token@ == token@
                    && final(db).links() == old(db).links().remove(i);
            lemma_link_by_pair_spec_here(old(db).links(), message_id, token@, i);
        }
    }
    r
}

/// A pair match at some index means `link_by_pair` answers `Some`.
proof fn lemma_link_by_pair_spec_here(
    links: Seq<MessageLink>,
    message_id: u128,
    token: Seq<char>,
    i: int,
)
    requires
        0 <= i < links.len(),
        links[i].message_id == message_id,
        links[i].token@ == token,
    ensures
        link_by_pair(links, message_id, token) is Some,
    decreases links.len(),
{
    crate::store::lemma_link_by_pair_spec(links, message_id, token);
    match link_by_pair(links, message_id, token) {
        Some(_) => {},
        None => {
            assert(!(links[i].message_id == message_id && links[i].token@ == token));
        },
    }
}

/// A created capability link is retrievable by its exact token and resource
/// id immediately after creation, and resolving the same token under any
/// other resource id fails.
pub proof fn lemma_create_then_resolve(links: Seq<MessageLink>, l: MessageLink, other_id: u128)
    requires
        link_by_token(links, l.token@) is None,
        other_id != l.message_id,
    ensures
        link_by_pair(links.push(l), l.message_id, l.token@) == Some(l),
        link_by_pair(links.push(l), other_id, l.token@) is None,
{
    let t = links.push(l);
    lemma_link_by_token_spec(links, l.token@);
    assert forall|k: int|
        0 <= k < links.len() implies !((#[trigger] t[k]).message_id == l.message_id && t[k].token@
        == l.token@) by {
        assert(t[k] == links[k]);
    }
    assert(t[links.len() as int] == l);
    lemma_link_by_pair_at(t, l.message_id, l.token@, links.len() as int);
    assert forall|k: int|
        0 <= k < t.len() implies !((#[trigger] t[k]).message_id == other_id && t[k].token@
        == l.token@) by {
        if k < links.len() {
            assert(t[k] == links[k]);
        } else {
            assert(t[k] == l);
        }
    }
    lemma_link_by_pair_none(t, other_id, l.token@);
}


/// The same round trip, quantified over every other resource id.
pub proof fn lemma_create_then_resolve_all(links: Seq<MessageLink>, l: MessageLink)
    requires
        link_by_token(links, l.token@) is None,
    ensures
        link_by_pair(links.push(l), l.message_id, l.token@) == Some(l),
        forall|other: u128|
            other != l.message_id ==> #[trigger] link_by_pair(links.push(l), other, l.token@)
                is None,
{
    let o: u128 = if l.message_id == 0 {
        1
    } else {
        0
    };
    lemma_create_then_resolve(links, l, o);
    assert forall|other: u128|
        other != l.message_id implies #[trigger] link_by_pair(links.push(l), other, l.token@)
        is None by {
        lemma_create_then_resolve(links, l, other);
    }
}

} // verus!
