//! The authority service's handler decisions, from plain request values to
//! plain results: everything each endpoint does between the router and the
//! store, with the router and the clock outside.

use vstd::prelude::*;
use vstd::string::StringSliceAdditionalSpecFns;
use vstd::utf8::encode_utf8;

use crate::crypto::Hasher;
use crate::dto::{valid_received_user, valid_user_update, ReceivedMessageLink, ReceivedUser, User};
use crate::links;
use crate::resolver::{
    failure_detail, failure_response, failure_status, header_decodes, header_view, resolve_flags,
    resolve_flags_model, resolve_link, resolve_link_model, resolve_user, resolve_user_model,
    AuthFailure,
};
use crate::store::{
    lemma_user_by_id_found, lemma_user_by_name_spec, link_by_pair, link_by_token, link_expired,
    links_of_message, message_by_id, user_by_id, user_by_name, AuthUser, Database, MessageLink,
    SetError,
};
use crate::codec::basic_decode_spec;
use crate::utility::{single_error, ApiError};

verus! {

/// The flag an account needs to create other accounts.
pub const CREATE_USERS_FLAG: i64 = 4;

/// A successfully resolved account is a stored row, so a later lookup of its
/// id on the same store snapshot cannot miss.
proof fn lemma_resolved_user_is_stored<H: Hasher>(
    users: Seq<AuthUser>,
    hasher: H,
    header: Option<Seq<char>>,
    au: AuthUser,
)
    requires
        resolve_user_model(users, hasher, header) == Ok::<AuthUser, AuthFailure>(au),
    ensures
        user_by_id(users, au.id) is Some,
{
    match header {
        Some(h) => match basic_decode_spec(h) {
            Ok((username, _password)) => {
                lemma_user_by_name_spec(users, username);
                let i = choose|i: int| #![auto] 0 <= i < users.len() && users[i] == au;
                lemma_user_by_id_found(users, au.id, i);
            },
            Err(_) => {},
        },
        None => {},
    }
}

/// `GET /users/@me`: the authenticated caller's own public record.
pub fn get_current_user<D: Database, H: Hasher>(db: &D, hasher: &H, header: Option<&str>) -> (r:
    Result<User, ApiError>)
    requires
        db.inv(),
    ensures
        ({
            let m = resolve_user_model(db.users(), *hasher, header_view(header));
            match r {
                Ok(u) => m matches Ok(au) && u.id == au.id && u.created_at == au.created_at
                    && u.flags == au.flags && u.username == au.username,
                Err(e) => (m matches Err(f) && e.status == failure_status(f) && e.detail@
                    == failure_detail(f)) || (header_decodes(header_view(header)) && e.status == 500
                    && e.detail@ == "Internal server error"@),
            }
        }),
{
    match resolve_user(db, hasher, header) {
        Ok(au) => Ok(User::from_auth(au)),
        Err(f) => Err(failure_response(&f)),
    }
}

/// `DELETE /users/@me`: deletes the authenticated caller's account.
pub fn delete_current_user<D: Database, H: Hasher>(
    db: &mut D,
    hasher: &H,
    header: Option<&str>,
) -> (r: Result<(), ApiError>)
    requires
        old(db).inv(),
    ensures
        final(db).inv(),
        final(db).messages() == old(db).messages(),
        final(db).links() == old(db).links(),
        ({
            let m = resolve_user_model(old(db).users(), *hasher, header_view(header));
            match r {
                Ok(_) => m matches Ok(au) && exists|i: int|
                    0 <= i < old(db).users().len() && (#[trigger] old(db).users()[i]).id == au.id
                        && final(db).users() == old(db).users().remove(i),
                Err(e) => final(db).users() == old(db).users() && ((m matches Err(f) && e.status
                    == failure_status(f) && e.detail@ == failure_detail(f)) || (header_decodes(
                    header_view(header),
                ) && e.status == 500 && (e.detail@ == "Internal server error"@ || e.detail@
                    == "Failed to delete user"@))),
            }
        }),
{
    let user = match resolve_user(db, hasher, header) {
        Ok(u) => u,
        Err(f) => {
            return Err(failure_response(&f));
        },
    };
    match db.delete_user(user.id) {
        Ok(true) => Ok(()),
        Ok(false) => {
            proof {
                lemma_resolved_user_is_stored(old(db).users(), *hasher, header_view(header), user);
            }
            Err(single_error(404, "User not found"))
        },
        Err(_) => Err(single_error(500, "Failed to delete user")),
    }
}

/// `POST /users`: creates an account. The caller must be authenticated with
/// the user-creation flag (or the admin bit); the submitted password is
/// hashed, never stored; the stored hash matches the submitted password.
pub fn post_user<D: Database, H: Hasher>(
    db: &mut D,
    hasher: &H,
    header: Option<&str>,
    user: &ReceivedUser,
    new_id: u128,
    now: i64,
) -> (r: Result<User, ApiError>)
    requires
        old(db).inv(),
    ensures
        final(db).inv(),
        final(db).messages() == old(db).messages(),
        final(db).links() == old(db).links(),
        ({
            let m = resolve_flags_model(
                old(db).users(),
                *hasher,
                header_view(header),
                CREATE_USERS_FLAG,
            );
            match r {
                Ok(u) => valid_received_user(*user) && m is Ok && u.id == new_id && u.created_at
                    == now && u.flags == user.flags && u.username@ == user.username@ && exists|
                    au: AuthUser,
                |
                    #![auto]
                    final(db).users() == old(db).users().push(au) && au.id == new_id
                        && au.created_at == now && au.flags == user.flags && au.username@
                        == user.username@ && hasher.accepts(
                        au.password_hash@,
                        encode_utf8(user.password@),
                    ),
                Err(e) => final(db).users() == old(db).users() && ((!valid_received_user(*user)
                    && e.status == 400 && e.detail@ == "Invalid request body"@)
                    || (valid_received_user(*user) && ((m matches Err(f) && e.status
                    == failure_status(f) && e.detail@ == failure_detail(f)) || (header_decodes(
                    header_view(header),
                ) && e.status == 500 && e.detail@ == "Internal server error"@) || (e.status == 403
                    && e.detail@ == "User already exists"@ && (user_by_id(old(db).users(), new_id)
                    is Some || user_by_name(old(db).users(), user.username@) is Some))))),
            }
        }),
{
    if !user.validate() {
        return Err(single_error(400, "Invalid request body"));
    }
    match resolve_flags(db, hasher, header, CREATE_USERS_FLAG) {
        Ok(_) => {},
        Err(f) => {
            return Err(failure_response(&f));
        },
    }
    let password_hash = match hasher.hash(user.password.as_str()) {
        Ok(h) => h,
        Err(_) => {
            return Err(single_error(500, "Internal server error"));
        },
    };
    match db.set_user(new_id, user.flags, password_hash.as_str(), user.username.as_str(), now) {
        Ok(au) => {
            let ghost gau = au;
            let u = User::from_auth(au);
            proof {
                assert(db.users() == old(db).users().push(gau) && gau.id == new_id
                    && gau.created_at == now && gau.flags == user.flags && gau.username@
                    == user.username@ && hasher.accepts(
                    gau.password_hash@,
                    encode_utf8(user.password@),
                ));
            }
            Ok(u)
        },
        Err(SetError::Conflict) => Err(single_error(403, "User already exists")),
        Err(SetError::Unknown(_)) => Err(single_error(500, "Internal server error")),
    }
}

/// `PATCH /users/@me`: updates the authenticated caller's account; a given
/// password is hashed and the new stored hash matches it, absent fields are
/// kept.
pub fn patch_current_user<D: Database, H: Hasher>(
    db: &mut D,
    hasher: &H,
    header: Option<&str>,
    update: &crate::dto::UserUpdate,
) -> (r: Result<User, ApiError>)
    requires
        old(db).inv(),
    ensures
        final(db).inv(),
        final(db).messages() == old(db).messages(),
        final(db).links() == old(db).links(),
        ({
            let m = resolve_user_model(old(db).users(), *hasher, header_view(header));
            match r {
                Ok(u) => valid_user_update(*update) && (m matches Ok(au) && exists|i: int|
                    #![auto]
                    0 <= i < old(db).users().len() && old(db).users()[i].id == au.id
                        && final(db).users() == old(db).users().update(i, final(db).users()[i]) && {
                        let old_u = old(db).users()[i];
                        let new_u = final(db).users()[i];
                        new_u.id == old_u.id && new_u.created_at == old_u.created_at && new_u.flags
                            == (match update.flags {
                            Some(f) => f,
                            None => old_u.flags,
                        }) && new_u.username@ == (match update.username {
                            Some(n) => n@,
                            None => old_u.username@,
                        }) && (match update.password {
                            Some(p) => hasher.accepts(new_u.password_hash@, encode_utf8(p@)),
                            None => new_u.password_hash@ == old_u.password_hash@,
                        }) && u.id == new_u.id && u.created_at == new_u.created_at && u.flags
                            == new_u.flags && u.username == new_u.username
                    }),
                Err(e) => final(db).users() == old(db).users() && ((!valid_user_update(*update)
                    && e.status == 400 && e.detail@ == "Invalid request body"@) || (
                valid_user_update(*update) && ((m matches Err(f) && e.status == failure_status(f)
                    && e.detail@ == failure_detail(f)) || (header_decodes(header_view(header))
                    && e.status == 500 && e.detail@ == "Internal server error"@)))),
            }
        }),
{
    if !update.validate() {
        return Err(single_error(400, "Invalid request body"));
    }
    let user = match resolve_user(db, hasher, header) {
        Ok(u) => u,
        Err(f) => {
            return Err(failure_response(&f));
        },
    };
    let password_hash: Option<String> = match &update.password {
        Some(p) => match hasher.hash(p.as_str()) {
            Ok(h) => Some(h),
            Err(_) => {
                return Err(single_error(500, "Internal server error"));
            },
        },
        None => None,
    };
    let hash_arg: Option<&str> = match &password_hash {
        Some(h) => Some(h.as_str()),
        None => None,
    };
    let name_arg: Option<&str> = match &update.username {
        Some(n) => Some(n.as_str()),
        None => None,
    };
    let ghost ghash: Option<Seq<char>> = match hash_arg {
        Some(h) => Some(h@),
        None => None,
    };
    let ghost gname: Option<Seq<char>> = match name_arg {
        Some(n) => Some(n@),
        None => None,
    };
    match db.update_user(user.id, update.flags, hash_arg, name_arg) {
        Err(_) => Err(single_error(500, "Internal server error")),
        Ok(Some(v)) => {
            let ghost gv = v;
            proof {
                let i = choose|i: int|
                    0 <= i < old(db).users().len() && (#[trigger] old(db).users()[i]).id == user.id
                        && crate::store::user_updated(old(db).users()[i], gv, update.flags, ghash, gname)
                        && db.users() == old(db).users().update(i, gv);
                assert(db.users()[i] == gv);
                let old_u = old(db).users()[i];
                assert(0 <= i < old(db).users().len() && old(db).users()[i].id == user.id
                    && db.users() == old(db).users().update(i, db.users()[i]) && gv.id == old_u.id
                    && gv.created_at == old_u.created_at && gv.flags == (match update.flags {
                    Some(f) => f,
                    None => old_u.flags,
                }) && gv.username@ == (match update.username {
                    Some(n) => n@,
                    None => old_u.username@,
                }) && (match update.password {
                    Some(p) => hasher.accepts(gv.password_hash@, encode_utf8(p@)),
                    None => gv.password_hash@ == old_u.password_hash@,
                }));
            }
            Ok(User::from_auth(v))
        },
        Ok(None) => {
            proof {
                lemma_resolved_user_is_stored(old(db).users(), *hasher, header_view(header), user);
            }
            Err(single_error(404, "Couldn't find user"))
        },
    }
}

/// `GET /links/{token}`: the by-token legacy lookup, a pure read that any
/// bearer of the token may make. An expired link is rejected with the very
/// failure an unknown token gets, so expiry is not observable separately.
pub fn get_message_link<D: Database>(db: &D, link_token: &str, now: i64) -> (r: Result<
    MessageLink,
    ApiError,
>)
    requires
        db.inv(),
    ensures
        match r {
            Ok(l) => link_by_token(db.links(), link_token@) == Some(l) && !link_expired(l, now),
            Err(e) => ((link_by_token(db.links(), link_token@) is None || (link_by_token(
                db.links(),
                link_token@,
            ) matches Some(l) && link_expired(l, now))) && e.status == 404 && e.detail@
                == "Link not found"@) || (e.status == 500 && e.detail@ == "Internal server error"@),
        },
{
    let link = match db.get_message_link_by_token(link_token) {
        Err(_) => {
            return Err(single_error(500, "Internal server error"));
        },
        Ok(None) => {
            return Err(single_error(404, "Link not found"));
        },
        Ok(Some(l)) => l,
    };
    match link.expires_at {
        Some(t) => {
            if now > t {
                Err(single_error(404, "Link not found"))
            } else {
                Ok(link)
            }
        },
        None => Ok(link),
    }
}

/// `GET /messages/{id}/links/{token}`: the pair-form lookup a relying
/// service makes when serving a shared resource, routed through the
/// expiry-aware resolver; absent and expired links are indistinguishable.
pub fn get_shared_message_link<D: Database>(
    db: &D,
    message_id: u128,
    link_token: &str,
    now: i64,
) -> (r: Result<MessageLink, ApiError>)
    requires
        db.inv(),
    ensures
        ({
            let m = resolve_link_model(db.links(), message_id, link_token@, now);
            match r {
                Ok(l) => m == Ok::<MessageLink, AuthFailure>(l),
                Err(e) => (m == Err::<MessageLink, AuthFailure>(AuthFailure::LinkNotFound)
                    && e.status == 404 && e.detail@ == "Link not found"@) || (e.status == 500
                    && e.detail@ == "Internal server error"@),
            }
        }),
{
    match resolve_link(db, message_id, link_token, now) {
        Ok(l) => Ok(l),
        Err(AuthFailure::LinkNotFound) => Err(single_error(404, "Link not found")),
        Err(_) => Err(single_error(500, "Internal server error")),
    }
}

/// Whether this caller owns this message: the ownership gate every
/// link-management endpoint passes through.
pub open spec fn owns_message(messages: Seq<crate::store::Message>, message_id: u128, user_id: u128) -> bool {
    message_by_id(messages, message_id) matches Some(msg) && msg.user_id == user_id
}

/// `DELETE /messages/{id}/links/{token}`: the owner removes a link.
pub fn delete_message_link<D: Database, H: Hasher>(
    db: &mut D,
    hasher: &H,
    header: Option<&str>,
    message_id: u128,
    link_token: &str,
) -> (r: Result<(), ApiError>)
    requires
        old(db).inv(),
    ensures
        final(db).inv(),
        final(db).users() == old(db).users(),
        final(db).messages() == old(db).messages(),
        match r {
            Ok(_) => resolve_user_model(old(db).users(), *hasher, header_view(header)) matches Ok(
                au,
            ) && owns_message(old(db).messages(), message_id, au.id) && exists|i: int|
                0 <= i < old(db).links().len() && (#[trigger] old(db).links()[i]).message_id
                    == message_id && old(db).links()[i].token@ == link_token@ && final(db).links()
                    == old(db).links().remove(i),
            Err(e) => final(db).links() == old(db).links() && ({
                let m = resolve_user_model(old(db).users(), *hasher, header_view(header));
                (m matches Err(f) && e.status == failure_status(f) && e.detail@ == failure_detail(
                    f,
                )) || (header_decodes(header_view(header)) && e.status == 500 && (e.detail@
                    == "Internal server error"@ || e.detail@ == "Database lookup failed"@
                    || e.detail@ == "Failed to delete link"@)) || (m is Ok && message_by_id(
                    old(db).messages(),
                    message_id,
                ) is None && e.status == 404 && e.detail@ == "message not found"@) || (m matches Ok(
                    au,
                ) && (message_by_id(old(db).messages(), message_id) matches Some(msg)
                    && msg.user_id != au.id) && e.status == 404 && e.detail@
                    == "Message not found"@) || (m matches Ok(au) && owns_message(
                    old(db).messages(),
                    message_id,
                    au.id,
                ) && link_by_pair(old(db).links(), message_id, link_token@) is None && e.status
                    == 404 && e.detail@ == "Message link not found"@)
            }),
        },
{
    let user = match resolve_user(db, hasher, header) {
        Ok(u) => u,
        Err(f) => {
            return Err(failure_response(&f));
        },
    };
    let message = match db.get_message(message_id) {
        Err(_) => {
            return Err(single_error(500, "Database lookup failed"));
        },
        Ok(None) => {
            return Err(single_error(404, "message not found"));
        },
        Ok(Some(m)) => m,
    };
    if message.user_id != user.id {
        return Err(single_error(404, "Message not found"));
    }
    match db.delete_message_link(message_id, link_token) {
        Ok(true) => Ok(()),
        Ok(false) => Err(single_error(404, "Message link not found")),
        Err(_) => Err(single_error(500, "Failed to delete link")),
    }
}

/// `GET /messages/{id}/links`: the owner lists a message's links.
pub fn get_message_links<D: Database, H: Hasher>(
    db: &D,
    hasher: &H,
    header: Option<&str>,
    message_id: u128,
) -> (r: Result<Vec<MessageLink>, ApiError>)
    requires
        db.inv(),
    ensures
        match r {
            Ok(v) => resolve_user_model(db.users(), *hasher, header_view(header)) matches Ok(au)
                && owns_message(db.messages(), message_id, au.id) && v@ == links_of_message(
                db.links(),
                message_id,
            ),
            Err(e) => ({
                let m = resolve_user_model(db.users(), *hasher, header_view(header));
                (m matches Err(f) && e.status == failure_status(f) && e.detail@ == failure_detail(
                    f,
                )) || (header_decodes(header_view(header)) && e.status == 500 && (e.detail@
                    == "Internal server error"@ || e.detail@ == "Database lookup failed"@))
                    || (m is Ok && message_by_id(db.messages(), message_id) is None && e.status
                    == 404 && e.detail@ == "message not found"@) || (m matches Ok(au) && (
                message_by_id(db.messages(), message_id) matches Some(msg) && msg.user_id != au.id)
                    && e.status == 404 && e.detail@ == "Message not found"@)
            }),
        },
{
    let user = match resolve_user(db, hasher, header) {
        Ok(u) => u,
        Err(f) => {
            return Err(failure_response(&f));
        },
    };
    let message = match db.get_message(message_id) {
        Err(_) => {
            return Err(single_error(500, "Database lookup failed"));
        },
        Ok(None) => {
            return Err(single_error(404, "message not found"));
        },
        Ok(Some(m)) => m,
    };
    if message.user_id != user.id {
        return Err(single_error(404, "Message not found"));
    }
    match db.get_message_links(message_id) {
        Ok(v) => Ok(v),
        Err(_) => Err(single_error(500, "Internal server error")),
    }
}

/// `POST /messages/{id}/links`: the owner creates a capability link. The
/// created link resolves under its exact token and message, and under no
/// other message.
pub fn post_message_link<D: Database, H: Hasher>(
    db: &mut D,
    hasher: &H,
    header: Option<&str>,
    message_id: u128,
    received: &ReceivedMessageLink,
    now: i64,
) -> (r: Result<MessageLink, ApiError>)
    requires
        old(db).inv(),
    ensures
        final(db).inv(),
        final(db).users() == old(db).users(),
        final(db).messages() == old(db).messages(),
        match r {
            Ok(l) => resolve_user_model(old(db).users(), *hasher, header_view(header)) matches Ok(
                au,
            ) && owns_message(old(db).messages(), message_id, au.id) && l.message_id == message_id
                && l.access == received.access && (match received.expire_after {
                Some(d) => l.expires_at == Some((now + d) as i64),
                None => l.expires_at is None,
            }) && (match received.resource {
                Some(s) => l.resource matches Some(rs) && rs@ == s@,
                None => l.resource is None,
            }) && l.token@.len() == crate::links::LINK_KEY_CHARS && final(db).links() == old(
                db,
            ).links().push(l) && link_by_pair(
                final(db).links(),
                message_id,
                l.token@,
            ) == Some(l) && (forall|other: u128|
                other != message_id ==> #[trigger] link_by_pair(
                    final(db).links(),
                    other,
                    l.token@,
                ) is None),
            Err(e) => final(db).links() == old(db).links() && ({
                let m = resolve_user_model(old(db).users(), *hasher, header_view(header));
                (m matches Err(f) && e.status == failure_status(f) && e.detail@ == failure_detail(
                    f,
                )) || (header_decodes(header_view(header)) && e.status == 500 && (e.detail@
                    == "Internal server error"@ || e.detail@ == "Database lookup failed"@)) || (m
                    is Ok && message_by_id(old(db).messages(), message_id) is None && e.status
                    == 404 && e.detail@ == "message not found"@) || (m matches Ok(au) && (
                message_by_id(old(db).messages(), message_id) matches Some(msg) && msg.user_id
                    != au.id) && e.status == 404 && e.detail@ == "Message not found"@) || (m
                    matches Ok(au) && owns_message(old(db).messages(), message_id, au.id) && (
                received.expire_after matches Some(d) && !(i64::MIN <= now + d <= i64::MAX))
                    && e.status == 400 && e.detail@ == "Invalid link expiry"@)
            }),
        },
{
    let user = match resolve_user(db, hasher, header) {
        Ok(u) => u,
        Err(f) => {
            return Err(failure_response(&f));
        },
    };
    let message = match db.get_message(message_id) {
        Err(_) => {
            return Err(single_error(500, "Database lookup failed"));
        },
        Ok(None) => {
            return Err(single_error(404, "message not found"));
        },
        Ok(Some(m)) => m,
    };
    if message.user_id != user.id {
        return Err(single_error(404, "Message not found"));
    }
    let expires_at: Option<i64> = match received.expire_after {
        Some(d) => match now.checked_add(d) {
            Some(t) => Some(t),
            None => {
                // The clock plus the requested lifetime does not fit a
                // timestamp: the request is rejected rather than wrapped.
                return Err(single_error(400, "Invalid link expiry"));
            },
        },
        None => None,
    };
    let resource_arg: Option<&str> = match &received.resource {
        Some(s) => Some(s.as_str()),
        None => None,
    };
    match links::create(db, message_id, received.access, expires_at, resource_arg) {
        Ok(l) => {
            proof {
                links::lemma_create_then_resolve_all(old(db).links(), l);
            }
            Ok(l)
        },
        Err(_) => Err(single_error(500, "Internal server error")),
    }
}

} // verus!
