//! The data-store collaborator: the narrow read/write contract the core
//! consumes, and a verified in-memory implementation of it.
//!
//! A `Database` owns the user and capability-link rows. Usernames and user
//! ids are unique, as are link tokens; a stored password hash is write-only
//! from the outside (`AuthUser` never leaves the authority service). Every
//! method may fail with an opaque storage error; what it answers when it
//! answers is pinned to the store's model.

use vstd::prelude::*;
use vstd::string::StringSliceAdditionalSpecFns;

use crate::utility::str_eq;

verus! {

/// A stored account: the only place a password hash lives.
#[derive(Debug)]
pub struct AuthUser {
    pub id: u128,
    pub created_at: i64,
    pub flags: i64,
    pub password_hash: String,
    pub username: String,
}

impl AuthUser {
    /// A field-for-field copy.
    pub fn duplicate(&self) -> (r: Self)
        ensures
            r == *self,
    {
        AuthUser {
            id: self.id,
            created_at: self.created_at,
            flags: self.flags,
            password_hash: self.password_hash.clone(),
            username: self.username.clone(),
        }
    }
}

/// The part of a message the auth core reads: who owns it.
#[derive(Clone, Copy, Debug)]
pub struct Message {
    pub id: u128,
    pub user_id: u128,
}

/// A capability link: an opaque bearer token scoping access to one message,
/// with an access bitmask, an optional absolute expiry and an optional
/// resource sub-selector. The owning message is immutable after creation.
#[derive(Debug)]
pub struct MessageLink {
    pub access: i16,
    pub expires_at: Option<i64>,
    pub message_id: u128,
    pub resource: Option<String>,
    pub token: String,
}

impl MessageLink {
    /// A field-for-field copy.
    pub fn duplicate(&self) -> (r: Self)
        ensures
            r == *self,
    {
        MessageLink {
            access: self.access,
            expires_at: self.expires_at,
            message_id: self.message_id,
            resource: match &self.resource {
                Some(s) => Some(s.clone()),
                None => None,
            },
            token: self.token.clone(),
        }
    }
}

/// A per-message permission row.
#[derive(Clone, Copy, Debug)]
pub struct Permission {
    pub message_id: i64,
    pub permissions: i64,
    pub user_id: i64,
}

/// An opaque storage failure; the core never inspects it.
#[derive(Debug)]
pub struct StoreError {
    pub message: String,
}

/// Why an insert failed.
#[derive(Debug)]
pub enum SetError {
    /// The row conflicts with an existing one.
    Conflict,
    /// Any other storage failure.
    Unknown(StoreError),
}

/// The first user with this username, if any.
pub open spec fn user_by_name(users: Seq<AuthUser>, name: Seq<char>) -> Option<AuthUser>
    decreases users.len(),
{
    if users.len() == 0 {
        None
    } else if users[0].username@ == name {
        Some(users[0])
    } else {
        user_by_name(users.drop_first(), name)
    }
}

/// The first user with this id, if any.
pub open spec fn user_by_id(users: Seq<AuthUser>, id: u128) -> Option<AuthUser>
    decreases users.len(),
{
    if users.len() == 0 {
        None
    } else if users[0].id == id {
        Some(users[0])
    } else {
        user_by_id(users.drop_first(), id)
    }
}

/// The first message with this id, if any.
pub open spec fn message_by_id(messages: Seq<Message>, id: u128) -> Option<Message>
    decreases messages.len(),
{
    if messages.len() == 0 {
        None
    } else if messages[0].id == id {
        Some(messages[0])
    } else {
        message_by_id(messages.drop_first(), id)
    }
}

/// The first link with this token, if any; tokens are globally unique.
pub open spec fn link_by_token(links: Seq<MessageLink>, token: Seq<char>) -> Option<MessageLink>
    decreases links.len(),
{
    if links.len() == 0 {
        None
    } else if links[0].token@ == token {
        Some(links[0])
    } else {
        link_by_token(links.drop_first(), token)
    }
}

/// The first link with this exact (message, token) pair, if any.
pub open spec fn link_by_pair(links: Seq<MessageLink>, message_id: u128, token: Seq<char>) -> Option<
    MessageLink,
>
    decreases links.len(),
{
    if links.len() == 0 {
        None
    } else if links[0].message_id == message_id && links[0].token@ == token {
        Some(links[0])
    } else {
        link_by_pair(links.drop_first(), message_id, token)
    }
}

/// All links of one message, in insertion order.
pub open spec fn links_of_message(links: Seq<MessageLink>, message_id: u128) -> Seq<MessageLink>
    decreases links.len(),
{
    if links.len() == 0 {
        Seq::empty()
    } else {
        let rest = links_of_message(links.drop_last(), message_id);
        if links.last().message_id == message_id {
            rest.push(links.last())
        } else {
            rest
        }
    }
}

/// Whether a link has expired at the given clock reading.
pub open spec fn link_expired(l: MessageLink, now: i64) -> bool {
    l.expires_at matches Some(t) && now > t
}

/// Users are unique by id and by username.
pub open spec fn users_distinct(u1: AuthUser, u2: AuthUser) -> bool {
    u1.id != u2.id && u1.username@ != u2.username@
}

/// Messages are unique by id.
pub open spec fn messages_distinct(m1: Message, m2: Message) -> bool {
    m1.id != m2.id
}

/// Link tokens are unique across all messages: a token is a bearer secret,
/// not a per-message key.
pub open spec fn links_distinct(l1: MessageLink, l2: MessageLink) -> bool {
    l1.token@ != l2.token@
}

/// How an update request changes one user: each given field is replaced, the
/// rest (and the id and creation time) are kept.
pub open spec fn user_updated(
    old_u: AuthUser,
    new_u: AuthUser,
    flags: Option<i64>,
    password_hash: Option<Seq<char>>,
    username: Option<Seq<char>>,
) -> bool {
    new_u.id == old_u.id && new_u.created_at == old_u.created_at && new_u.flags == (match flags {
        Some(f) => f,
        None => old_u.flags,
    }) && new_u.password_hash@ == (match password_hash {
        Some(h) => h,
        None => old_u.password_hash@,
    }) && new_u.username@ == (match username {
        Some(n) => n,
        None => old_u.username@,
    })
}

/// Removing one user keeps the remaining users pairwise distinct.
pub proof fn lemma_remove_user_distinct(s: Seq<AuthUser>, i: int)
    requires
        0 <= i < s.len(),
        forall|a: int, b: int| 0 <= a < b < s.len() ==> #[trigger] users_distinct(s[a], s[b]),
    ensures
        forall|a: int, b: int|
            0 <= a < b < s.len() - 1 ==> #[trigger] users_distinct(s.remove(i)[a], s.remove(i)[b]),
{
    let t = s.remove(i);
    assert forall|a: int, b: int| 0 <= a < b < s.len() - 1 implies #[trigger] users_distinct(
        t[a],
        t[b],
    ) by {
        let oa = if a < i { a } else { a + 1 };
        let ob = if b < i { b } else { b + 1 };
        assert(t[a] == s[oa]);
        assert(t[b] == s[ob]);
        assert(users_distinct(s[oa], s[ob]));
    }
}

/// Removing one link keeps the remaining tokens pairwise distinct.
pub proof fn lemma_remove_link_distinct(s: Seq<MessageLink>, i: int)
    requires
        0 <= i < s.len(),
        forall|a: int, b: int| 0 <= a < b < s.len() ==> #[trigger] links_distinct(s[a], s[b]),
    ensures
        forall|a: int, b: int|
            0 <= a < b < s.len() - 1 ==> #[trigger] links_distinct(s.remove(i)[a], s.remove(i)[b]),
{
    let t = s.remove(i);
    assert forall|a: int, b: int| 0 <= a < b < s.len() - 1 implies #[trigger] links_distinct(
        t[a],
        t[b],
    ) by {
        let oa = if a < i { a } else { a + 1 };
        let ob = if b < i { b } else { b + 1 };
        assert(t[a] == s[oa]);
        assert(t[b] == s[ob]);
        assert(links_distinct(s[oa], s[ob]));
    }
}

/// A least match pins `user_by_name` down.
pub proof fn lemma_user_by_name_at(users: Seq<AuthUser>, name: Seq<char>, i: int)
    requires
        0 <= i < users.len(),
        users[i].username@ == name,
        forall|k: int| 0 <= k < i ==> (#[trigger] users[k]).username@ != name,
    ensures
        user_by_name(users, name) == Some(users[i]),
    decreases i,
{
    if i > 0 {
        let rest = users.drop_first();
        assert(rest[i - 1] == users[i]);
        assert forall|k: int| 0 <= k < i - 1 implies (#[trigger] rest[k]).username@ != name by {
            assert(rest[k] == users[k + 1]);
        }
        lemma_user_by_name_at(rest, name, i - 1);
    }
}

/// No username match pins `user_by_name` to `None`.
pub proof fn lemma_user_by_name_none(users: Seq<AuthUser>, name: Seq<char>)
    requires
        forall|k: int| 0 <= k < users.len() ==> (#[trigger] users[k]).username@ != name,
    ensures
        user_by_name(users, name) is None,
    decreases users.len(),
{
    if users.len() > 0 {
        let rest = users.drop_first();
        assert forall|k: int| 0 <= k < rest.len() implies (#[trigger] rest[k]).username@ != name by {
            assert(rest[k] == users[k + 1]);
        }
        lemma_user_by_name_none(rest, name);
    }
}

/// A `user_by_name` hit is a stored user with that username.
pub proof fn lemma_user_by_name_spec(users: Seq<AuthUser>, name: Seq<char>)
    ensures
        user_by_name(users, name) matches Some(u) ==> u.username@ == name && exists|i: int|
            #![auto]
            0 <= i < users.len() && users[i] == u,
    decreases users.len(),
{
    if users.len() == 0 {
    } else if users[0].username@ == name {
        assert(0 <= 0 < users.len() && users[0] == users[0]);
    } else {
        let rest = users.drop_first();
        lemma_user_by_name_spec(rest, name);
        match user_by_name(users, name) {
            Some(u) => {
                let j = choose|j: int| #![auto] 0 <= j < rest.len() && rest[j] == u;
                assert(users[j + 1] == rest[j]);
                assert(0 <= j + 1 < users.len() && users[j + 1] == u);
            },
            None => {},
        }
    }
}

/// An id that some stored user carries is found by `user_by_id`.
pub proof fn lemma_user_by_id_found(users: Seq<AuthUser>, id: u128, i: int)
    requires
        0 <= i < users.len(),
        users[i].id == id,
    ensures
        user_by_id(users, id) is Some,
    decreases users.len(),
{
    if users.len() > 0 && users[0].id != id {
        let rest = users.drop_first();
        assert(rest[i - 1] == users[i]);
        lemma_user_by_id_found(rest, id, i - 1);
    }
}

/// A least match pins `user_by_id` down.
pub proof fn lemma_user_by_id_at(users: Seq<AuthUser>, id: u128, i: int)
    requires
        0 <= i < users.len(),
        users[i].id == id,
        forall|k: int| 0 <= k < i ==> (#[trigger] users[k]).id != id,
    ensures
        user_by_id(users, id) == Some(users[i]),
    decreases i,
{
    if i > 0 {
        let rest = users.drop_first();
        assert(rest[i - 1] == users[i]);
        assert forall|k: int| 0 <= k < i - 1 implies (#[trigger] rest[k]).id != id by {
            assert(rest[k] == users[k + 1]);
        }
        lemma_user_by_id_at(rest, id, i - 1);
    }
}

/// No id match pins `user_by_id` to `None`.
pub proof fn lemma_user_by_id_none(users: Seq<AuthUser>, id: u128)
    requires
        forall|k: int| 0 <= k < users.len() ==> (#[trigger] users[k]).id != id,
    ensures
        user_by_id(users, id) is None,
    decreases users.len(),
{
    if users.len() > 0 {
        let rest = users.drop_first();
        assert forall|k: int| 0 <= k < rest.len() implies (#[trigger] rest[k]).id != id by {
            assert(rest[k] == users[k + 1]);
        }
        lemma_user_by_id_none(rest, id);
    }
}

/// A least match pins `message_by_id` down.
pub proof fn lemma_message_by_id_at(messages: Seq<Message>, id: u128, i: int)
    requires
        0 <= i < messages.len(),
        messages[i].id == id,
        forall|k: int| 0 <= k < i ==> (#[trigger] messages[k]).id != id,
    ensures
        message_by_id(messages, id) == Some(messages[i]),
    decreases i,
{
    if i > 0 {
        let rest = messages.drop_first();
        assert(rest[i - 1] == messages[i]);
        assert forall|k: int| 0 <= k < i - 1 implies (#[trigger] rest[k]).id != id by {
            assert(rest[k] == messages[k + 1]);
        }
        lemma_message_by_id_at(rest, id, i - 1);
    }
}

/// No id match pins `message_by_id` to `None`.
pub proof fn lemma_message_by_id_none(messages: Seq<Message>, id: u128)
    requires
        forall|k: int| 0 <= k < messages.len() ==> (#[trigger] messages[k]).id != id,
    ensures
        message_by_id(messages, id) is None,
    decreases messages.len(),
{
    if messages.len() > 0 {
        let rest = messages.drop_first();
        assert forall|k: int| 0 <= k < rest.len() implies (#[trigger] rest[k]).id != id by {
            assert(rest[k] == messages[k + 1]);
        }
        lemma_message_by_id_none(rest, id);
    }
}

/// A least match pins `link_by_token` down.
pub proof fn lemma_link_by_token_at(links: Seq<MessageLink>, token: Seq<char>, i: int)
    requires
        0 <= i < links.len(),
        links[i].token@ == token,
        forall|k: int| 0 <= k < i ==> (#[trigger] links[k]).token@ != token,
    ensures
        link_by_token(links, token) == Some(links[i]),
    decreases i,
{
    if i > 0 {
        let rest = links.drop_first();
        assert(rest[i - 1] == links[i]);
        assert forall|k: int| 0 <= k < i - 1 implies (#[trigger] rest[k]).token@ != token by {
            assert(rest[k] == links[k + 1]);
        }
        lemma_link_by_token_at(rest, token, i - 1);
    }
}

/// No token match pins `link_by_token` to `None`.
pub proof fn lemma_link_by_token_none(links: Seq<MessageLink>, token: Seq<char>)
    requires
        forall|k: int| 0 <= k < links.len() ==> (#[trigger] links[k]).token@ != token,
    ensures
        link_by_token(links, token) is None,
    decreases links.len(),
{
    if links.len() > 0 {
        let rest = links.drop_first();
        assert forall|k: int| 0 <= k < rest.len() implies (#[trigger] rest[k]).token@ != token by {
            assert(rest[k] == links[k + 1]);
        }
        lemma_link_by_token_none(rest, token);
    }
}

/// What a `link_by_token` answer means.
pub proof fn lemma_link_by_token_spec(links: Seq<MessageLink>, token: Seq<char>)
    ensures
        match link_by_token(links, token) {
            Some(l) => l.token@ == token && exists|i: int|
                #![auto]
                0 <= i < links.len() && links[i] == l,
            None => forall|k: int| 0 <= k < links.len() ==> (#[trigger] links[k]).token@ != token,
        },
    decreases links.len(),
{
    if links.len() == 0 {
    } else if links[0].token@ == token {
        assert(0 <= 0 < links.len() && links[0] == links[0]);
    } else {
        let rest = links.drop_first();
        lemma_link_by_token_spec(rest, token);
        match link_by_token(links, token) {
            Some(l) => {
                let j = choose|j: int| #![auto] 0 <= j < rest.len() && rest[j] == l;
                assert(links[j + 1] == rest[j]);
                assert(0 <= j + 1 < links.len() && links[j + 1] == l);
            },
            None => {
                assert forall|k: int| 0 <= k < links.len() implies (#[trigger] links[k]).token@ != token by {
                    if k > 0 {
                        assert(links[k] == rest[k - 1]);
                    }
                }
            },
        }
    }
}

/// A least match pins `link_by_pair` down.
pub proof fn lemma_link_by_pair_at(
    links: Seq<MessageLink>,
    message_id: u128,
    token: Seq<char>,
    i: int,
)
    requires
        0 <= i < links.len(),
        links[i].message_id == message_id,
        links[i].token@ == token,
        forall|k: int|
            0 <= k < i ==> !((#[trigger] links[k]).message_id == message_id && links[k].token@
                == token),
    ensures
        link_by_pair(links, message_id, token) == Some(links[i]),
    decreases i,
{
    if i > 0 {
        let rest = links.drop_first();
        assert(rest[i - 1] == links[i]);
        assert forall|k: int|
            0 <= k < i - 1 implies !((#[trigger] rest[k]).message_id == message_id && rest[k].token@
            == token) by {
            assert(rest[k] == links[k + 1]);
        }
        lemma_link_by_pair_at(rest, message_id, token, i - 1);
    }
}

/// No pair match pins `link_by_pair` to `None`.
pub proof fn lemma_link_by_pair_none(links: Seq<MessageLink>, message_id: u128, token: Seq<char>)
    requires
        forall|k: int|
            0 <= k < links.len() ==> !((#[trigger] links[k]).message_id == message_id
                && links[k].token@ == token),
    ensures
        link_by_pair(links, message_id, token) is None,
    decreases links.len(),
{
    if links.len() > 0 {
        let rest = links.drop_first();
        assert forall|k: int|
            0 <= k < rest.len() implies !((#[trigger] rest[k]).message_id == message_id
            && rest[k].token@ == token) by {
            assert(rest[k] == links[k + 1]);
        }
        lemma_link_by_pair_none(rest, message_id, token);
    }
}

/// What a `link_by_pair` answer means.
pub proof fn lemma_link_by_pair_spec(links: Seq<MessageLink>, message_id: u128, token: Seq<char>)
    ensures
        match link_by_pair(links, message_id, token) {
            Some(l) => l.message_id == message_id && l.token@ == token && exists|i: int|
                #![auto]
                0 <= i < links.len() && links[i] == l,
            None => forall|k: int|
                0 <= k < links.len() ==> !((#[trigger] links[k]).message_id == message_id
                    && links[k].token@ == token),
        },
    decreases links.len(),
{
    if links.len() == 0 {
    } else if links[0].message_id == message_id && links[0].token@ == token {
        assert(0 <= 0 < links.len() && links[0] == links[0]);
    } else {
        let rest = links.drop_first();
        lemma_link_by_pair_spec(rest, message_id, token);
        match link_by_pair(links, message_id, token) {
            Some(l) => {
                let j = choose|j: int| #![auto] 0 <= j < rest.len() && rest[j] == l;
                assert(links[j + 1] == rest[j]);
                assert(0 <= j + 1 < links.len() && links[j + 1] == l);
            },
            None => {
                assert forall|k: int|
                    0 <= k < links.len() implies !((#[trigger] links[k]).message_id == message_id
                    && links[k].token@ == token) by {
                    if k > 0 {
                        assert(links[k] == rest[k - 1]);
                    }
                }
            },
        }
    }
}

/// The narrow store contract the core consumes. Any method may fail with a
/// storage error and leave the rows unchanged; a successful answer is the
/// model's answer.
pub trait Database: Sized {
    /// The stored users.
    spec fn users(&self) -> Seq<AuthUser>;

    /// The stored messages (only their ownership is modelled).
    spec fn messages(&self) -> Seq<Message>;

    /// The stored capability links.
    spec fn links(&self) -> Seq<MessageLink>;

    /// Row uniqueness: user ids, usernames, message ids and link tokens.
    spec fn inv(&self) -> bool;

    /// Looks a user up by username.
    fn get_user_by_username(&self, username: &str) -> (r: Result<Option<AuthUser>, StoreError>)
        requires
            self.inv(),
        ensures
            r matches Ok(o) ==> o == user_by_name(self.users(), username@),
    ;

    /// Looks a user up by id.
    fn get_user_by_id(&self, user_id: u128) -> (r: Result<Option<AuthUser>, StoreError>)
        requires
            self.inv(),
        ensures
            r matches Ok(o) ==> o == user_by_id(self.users(), user_id),
    ;

    /// Inserts a user; a duplicate id or username is a conflict.
    fn set_user(
        &mut self,
        user_id: u128,
        flags: i64,
        password_hash: &str,
        username: &str,
        created_at: i64,
    ) -> (r: Result<AuthUser, SetError>)
        requires
            old(self).inv(),
        ensures
            final(self).inv(),
            match r {
                Ok(u) => u.id == user_id && u.flags == flags && u.created_at == created_at
                    && u.password_hash@ == password_hash@ && u.username@ == username@
                    && user_by_id(old(self).users(), user_id) is None
                    && user_by_name(old(self).users(), username@) is None
                    && final(self).users() == old(self).users().push(u)
                    && final(self).messages() == old(self).messages()
                    && final(self).links() == old(self).links(),
                Err(SetError::Conflict) => (user_by_id(old(self).users(), user_id) is Some
                    || user_by_name(old(self).users(), username@) is Some)
                    && final(self).users() == old(self).users()
                    && final(self).messages() == old(self).messages()
                    && final(self).links() == old(self).links(),
                Err(SetError::Unknown(_)) => final(self).users() == old(self).users()
                    && final(self).messages() == old(self).messages()
                    && final(self).links() == old(self).links(),
            },
    ;

    /// Updates the given fields of one user; absent user is `Ok(None)`.
    fn update_user(
        &mut self,
        user_id: u128,
        flags: Option<i64>,
        password_hash: Option<&str>,
        username: Option<&str>,
    ) -> (r: Result<Option<AuthUser>, StoreError>)
        requires
            old(self).inv(),
        ensures
            final(self).inv(),
            final(self).messages() == old(self).messages(),
            final(self).links() == old(self).links(),
            match r {
                Ok(Some(u)) => exists|i: int|
                    0 <= i < old(self).users().len() && (#[trigger] old(self).users()[i]).id
                        == user_id && user_updated(
                        old(self).users()[i],
                        u,
                        flags,
                        match password_hash {
                            Some(h) => Some(h@),
                            None => None,
                        },
                        match username {
                            Some(n) => Some(n@),
                            None => None,
                        },
                    ) && final(self).users() == old(self).users().update(i, u),
                Ok(None) => user_by_id(old(self).users(), user_id) is None && final(self).users()
                    == old(self).users(),
                Err(_) => final(self).users() == old(self).users(),
            },
    ;

    /// Deletes a user by id; says whether a row existed.
    fn delete_user(&mut self, user_id: u128) -> (r: Result<bool, StoreError>)
        requires
            old(self).inv(),
        ensures
            final(self).inv(),
            final(self).messages() == old(self).messages(),
            final(self).links() == old(self).links(),
            match r {
                Ok(true) => exists|i: int|
                    0 <= i < old(self).users().len() && (#[trigger] old(self).users()[i]).id
                        == user_id && final(self).users() == old(self).users().remove(i),
                Ok(false) => user_by_id(old(self).users(), user_id) is None && final(self).users()
                    == old(self).users(),
                Err(_) => final(self).users() == old(self).users(),
            },
    ;

    /// Looks a message up by id.
    fn get_message(&self, message_id: u128) -> (r: Result<Option<Message>, StoreError>)
        requires
            self.inv(),
        ensures
            r matches Ok(o) ==> o == message_by_id(self.messages(), message_id),
    ;

    /// Looks a link up by its exact (message, token) pair.
    fn get_message_link(&self, message_id: u128, link_token: &str) -> (r: Result<
        Option<MessageLink>,
        StoreError,
    >)
        requires
            self.inv(),
        ensures
            r matches Ok(o) ==> o == link_by_pair(self.links(), message_id, link_token@),
    ;

    /// Looks a link up by token alone (the `/links/{token}` legacy form).
    fn get_message_link_by_token(&self, link_token: &str) -> (r: Result<
        Option<MessageLink>,
        StoreError,
    >)
        requires
            self.inv(),
        ensures
            r matches Ok(o) ==> o == link_by_token(self.links(), link_token@),
    ;

    /// All links of one message.
    fn get_message_links(&self, message_id: u128) -> (r: Result<Vec<MessageLink>, StoreError>)
        requires
            self.inv(),
        ensures
            r matches Ok(v) ==> v@ == links_of_message(self.links(), message_id),
    ;

    /// Inserts a link; a duplicate token is a conflict, never an overwrite.
    fn set_message_link(
        &mut self,
        message_id: u128,
        link_token: &str,
        access: i16,
        expires_at: Option<i64>,
        resource: Option<&str>,
    ) -> (r: Result<MessageLink, SetError>)
        requires
            old(self).inv(),
        ensures
            final(self).inv(),
            final(self).users() == old(self).users(),
            final(self).messages() == old(self).messages(),
            match r {
                Ok(l) => l.message_id == message_id && l.token@ == link_token@ && l.access == access
                    && l.expires_at == expires_at && (match resource {
                    Some(s) => l.resource matches Some(rs) && rs@ == s@,
                    None => l.resource is None,
                }) && link_by_token(old(self).links(), link_token@) is None && final(self).links()
                    == old(self).links().push(l),
                Err(SetError::Conflict) => link_by_token(old(self).links(), link_token@) is Some
                    && final(self).links() == old(self).links(),
                Err(SetError::Unknown(_)) => final(self).links() == old(self).links(),
            },
    ;

    /// Deletes a link by its exact (message, token) pair; idempotent, says
    /// whether a row existed.
    fn delete_message_link(&mut self, message_id: u128, link_token: &str) -> (r: Result<
        bool,
        StoreError,
    >)
        requires
            old(self).inv(),
        ensures
            final(self).inv(),
            final(self).users() == old(self).users(),
            final(self).messages() == old(self).messages(),
            match r {
                Ok(true) => exists|i: int|
                    0 <= i < old(self).links().len() && (#[trigger] old(self).links()[i]).message_id
                        == message_id && old(self).links()[i].token@ == link_token@
                        && final(self).links() == old(self).links().remove(i),
                Ok(false) => link_by_pair(old(self).links(), message_id, link_token@) is None
                    && final(self).links() == old(self).links(),
                Err(_) => final(self).links() == old(self).links(),
            },
    ;
}

/// A verified in-memory store: the reference implementation of `Database`,
/// used directly by tests and wherever no external store is wired in.
pub struct MemoryStore {
    pub users: Vec<AuthUser>,
    pub messages: Vec<Message>,
    pub links: Vec<MessageLink>,
}

impl MemoryStore {
    /// An empty store.
    pub fn new() -> (r: Self)
        ensures
            r.inv(),
            r.users() == Seq::<AuthUser>::empty(),
            r.messages() == Seq::<Message>::empty(),
            r.links() == Seq::<MessageLink>::empty(),
    {
        MemoryStore { users: Vec::new(), messages: Vec::new(), links: Vec::new() }
    }

    /// Adds a message row (ownership only); a duplicate id is refused.
    #[verifier::loop_isolation(false)]
    pub fn add_message(&mut self, message_id: u128, user_id: u128) -> (r: bool)
        requires
            old(self).inv(),
        ensures
            final(self).inv(),
            final(self).users() == old(self).users(),
            final(self).links() == old(self).links(),
            r ==> message_by_id(old(self).messages(), message_id) is None && final(self).messages()
                == old(self).messages().push(Message { id: message_id, user_id }),
            !r ==> message_by_id(old(self).messages(), message_id) is Some && final(self).messages()
                == old(self).messages(),
    {
        let n = self.messages.len();
        let mut i: usize = 0;
        while i < n
            invariant
                n == self.messages.len(),
                0 <= i <= n,
                forall|k: int| 0 <= k < i ==> (#[trigger] self.messages@[k]).id != message_id,
            decreases n - i,
        {
            if self.messages[i].id == message_id {
                proof {
                    lemma_message_by_id_at(self.messages@, message_id, i as int);
                }
                return false;
            }
            i += 1;
        }
        proof {
            lemma_message_by_id_none(self.messages@, message_id);
        }
        let m = Message { id: message_id, user_id };
        self.messages.push(m);
        proof {
            lemma_push_preserves_distinct_messages(old(self).messages@, m);
        }
        true
    }
}

/// Pushing a message with a fresh id keeps message ids unique.
proof fn lemma_push_preserves_distinct_messages(s: Seq<Message>, m: Message)
    requires
        forall|a: int, b: int| 0 <= a < b < s.len() ==> #[trigger] messages_distinct(s[a], s[b]),
        forall|k: int| 0 <= k < s.len() ==> (#[trigger] s[k]).id != m.id,
    ensures
        forall|a: int, b: int|
            0 <= a < b < s.push(m).len() ==> #[trigger] messages_distinct(s.push(m)[a], s.push(m)[b]),
{
    let t = s.push(m);
    assert forall|a: int, b: int| 0 <= a < b < t.len() implies #[trigger] messages_distinct(
        t[a],
        t[b],
    ) by {
        if b < s.len() {
            assert(messages_distinct(s[a], s[b]));
        } else {
            assert(t[b] == m);
            assert(t[a] == s[a]);
        }
    }
}

#[verifier::loop_isolation(false)]
impl Database for MemoryStore {
    open spec fn users(&self) -> Seq<AuthUser> {
        self.users@
    }

    open spec fn messages(&self) -> Seq<Message> {
        self.messages@
    }

    open spec fn links(&self) -> Seq<MessageLink> {
        self.links@
    }

    open spec fn inv(&self) -> bool {
        (forall|a: int, b: int|
            0 <= a < b < self.users@.len() ==> #[trigger] users_distinct(
                self.users@[a],
                self.users@[b],
            )) && (forall|a: int, b: int|
            0 <= a < b < self.messages@.len() ==> #[trigger] messages_distinct(
                self.messages@[a],
                self.messages@[b],
            )) && (forall|a: int, b: int|
            0 <= a < b < self.links@.len() ==> #[trigger] links_distinct(
                self.links@[a],
                self.links@[b],
            ))
    }

    fn get_user_by_username(&self, username: &str) -> (r: Result<Option<AuthUser>, StoreError>)
        ensures
            r is Ok,
    {
        let n = self.users.len();
        let mut i: usize = 0;
        while i < n
            invariant
                n == self.users.len(),
                0 <= i <= n,
                forall|k: int| 0 <= k < i ==> (#[trigger] self.users@[k]).username@ != username@,
            decreases n - i,
        {
            if str_eq(self.users[i].username.as_str(), username) {
                proof {
                    lemma_user_by_name_at(self.users@, username@, i as int);
                }
                return Ok(Some(self.users[i].duplicate()));
            }
            i += 1;
        }
        proof {
            lemma_user_by_name_none(self.users@, username@);
        }
        Ok(None)
    }

    fn get_user_by_id(&self, user_id: u128) -> (r: Result<Option<AuthUser>, StoreError>)
        ensures
            r is Ok,
    {
        let n = self.users.len();
        let mut i: usize = 0;
        while i < n
            invariant
                n == self.users.len(),
                0 <= i <= n,
                forall|k: int| 0 <= k < i ==> (#[trigger] self.users@[k]).id != user_id,
            decreases n - i,
        {
            if self.users[i].id == user_id {
                proof {
                    lemma_user_by_id_at(self.users@, user_id, i as int);
                }
                return Ok(Some(self.users[i].duplicate()));
            }
            i += 1;
        }
        proof {
            lemma_user_by_id_none(self.users@, user_id);
        }
        Ok(None)
    }

    fn set_user(
        &mut self,
        user_id: u128,
        flags: i64,
        password_hash: &str,
        username: &str,
        created_at: i64,
    ) -> (r: Result<AuthUser, SetError>)
        ensures
            r matches Err(e) ==> e is Conflict,
    {
        let n = self.users.len();
        let mut i: usize = 0;
        while i < n
            invariant
                n == self.users.len(),
                0 <= i <= n,
                self == old(self),
                forall|k: int|
                    0 <= k < i ==> (#[trigger] self.users@[k]).id != user_id
                        && self.users@[k].username@ != username@,
            decreases n - i,
        {
            if self.users[i].id == user_id {
                proof {
                    lemma_user_by_id_at(self.users@, user_id, i as int);
                }
                return Err(SetError::Conflict);
            }
            if str_eq(self.users[i].username.as_str(), username) {
                proof {
                    lemma_user_by_name_at(self.users@, username@, i as int);
                }
                return Err(SetError::Conflict);
            }
            i += 1;
        }
        proof {
            lemma_user_by_id_none(self.users@, user_id);
            lemma_user_by_name_none(self.users@, username@);
        }
        let u = AuthUser {
            id: user_id,
            created_at,
            flags,
            password_hash: password_hash.to_owned(),
            username: username.to_owned(),
        };
        let ret = u.duplicate();
        self.users.push(u);
        proof {
            let s = old(self).users@;
            let t = self.users@;
            assert forall|a: int, b: int| 0 <= a < b < t.len() implies #[trigger] users_distinct(
                t[a],
                t[b],
            ) by {
                if b < s.len() {
                    assert(users_distinct(s[a], s[b]));
                } else {
                    assert(t[a] == s[a]);
                }
            }
        }
        Ok(ret)
    }

    fn update_user(
        &mut self,
        user_id: u128,
        flags: Option<i64>,
        password_hash: Option<&str>,
        username: Option<&str>,
    ) -> (r: Result<Option<AuthUser>, StoreError>)
        ensures
            r is Err ==> (match username {
                Some(n) => exists|k: int|
                    0 <= k < old(self).users@.len() && (#[trigger] old(self).users@[k]).username@
                        == n@ && old(self).users@[k].id != user_id,
                None => false,
            }),
    {
        let n = self.users.len();
        let mut idx: usize = n;
        let mut i: usize = 0;
        while i < n
            invariant
                n == self.users.len(),
                0 <= i <= n,
                self == old(self),
                idx == n || (idx < i && self.users@[idx as int].id == user_id),
                idx == n ==> forall|k: int| 0 <= k < i ==> (#[trigger] self.users@[k]).id
                    != user_id,
            decreases n - i,
        {
            if idx == n && self.users[i].id == user_id {
                idx = i;
            }
            i += 1;
        }
        if idx == n {
            proof {
                lemma_user_by_id_none(self.users@, user_id);
            }
            return Ok(None);
        }
        // A username change must not collide with another user.
        if let Some(new_name) = username {
            let mut k: usize = 0;
            while k < n
                invariant
                    n == self.users.len(),
                    0 <= k <= n,
                    idx < n,
                    self == old(self),
                    forall|j: int|
                        0 <= j < k && j != idx ==> (#[trigger] self.users@[j]).username@
                            != new_name@,
                decreases n - k,
            {
                if k != idx && str_eq(self.users[k].username.as_str(), new_name) {
                    proof {
                        let a = if k < idx { k as int } else { idx as int };
                        let b = if k < idx { idx as int } else { k as int };
                        assert(users_distinct(self.users@[a], self.users@[b]));
                    }
                    return Err(StoreError { message: "username conflict".to_owned() });
                }
                k += 1;
            }
        }
        let old_u = &self.users[idx];
        let new_u = AuthUser {
            id: old_u.id,
            created_at: old_u.created_at,
            flags: match flags {
                Some(f) => f,
                None => old_u.flags,
            },
            password_hash: match password_hash {
                Some(h) => h.to_owned(),
                None => old_u.password_hash.clone(),
            },
            username: match username {
                Some(nm) => nm.to_owned(),
                None => old_u.username.clone(),
            },
        };
        let ret = new_u.duplicate();
        self.users.set(idx, new_u);
        proof {
            let s = old(self).users@;
            let t = self.users@;
            assert forall|a: int, b: int| 0 <= a < b < t.len() implies #[trigger] users_distinct(
                t[a],
                t[b],
            ) by {
                assert(users_distinct(s[a], s[b]));
                if a == idx as int || b == idx as int {
                    assert(t[a].id == s[a].id && t[b].id == s[b].id);
                }
            }
            assert(0 <= idx < old(self).users@.len() && old(self).users@[idx as int].id == user_id
                && user_updated(
                old(self).users@[idx as int],
                ret,
                flags,
                match password_hash {
                    Some(h) => Some(h@),
                    None => None,
                },
                match username {
                    Some(nm) => Some(nm@),
                    None => None,
                },
            ) && self.users@ == old(self).users@.update(idx as int, ret));
        }
        Ok(Some(ret))
    }

    fn delete_user(&mut self, user_id: u128) -> (r: Result<bool, StoreError>)
        ensures
            r is Ok,
    {
        let n = self.users.len();
        let mut i: usize = 0;
        while i < n
            invariant
                n == self.users.len(),
                0 <= i <= n,
                self == old(self),
                forall|k: int| 0 <= k < i ==> (#[trigger] self.users@[k]).id != user_id,
            decreases n - i,
        {
            if self.users[i].id == user_id {
                self.users.remove(i);
                proof {
                    lemma_remove_user_distinct(old(self).users@, i as int);
                }
                return Ok(true);
            }
            i += 1;
        }
        proof {
            lemma_user_by_id_none(self.users@, user_id);
        }
        Ok(false)
    }

    fn get_message(&self, message_id: u128) -> (r: Result<Option<Message>, StoreError>)
        ensures
            r is Ok,
    {
        let n = self.messages.len();
        let mut i: usize = 0;
        while i < n
            invariant
                n == self.messages.len(),
                0 <= i <= n,
                forall|k: int| 0 <= k < i ==> (#[trigger] self.messages@[k]).id != message_id,
            decreases n - i,
        {
            if self.messages[i].id == message_id {
                proof {
                    lemma_message_by_id_at(self.messages@, message_id, i as int);
                }
                return Ok(Some(self.messages[i]));
            }
            i += 1;
        }
        proof {
            lemma_message_by_id_none(self.messages@, message_id);
        }
        Ok(None)
    }

    fn get_message_link(&self, message_id: u128, link_token: &str) -> (r: Result<
        Option<MessageLink>,
        StoreError,
    >)
        ensures
            r is Ok,
    {
        let n = self.links.len();
        let mut i: usize = 0;
        while i < n
            invariant
                n == self.links.len(),
                0 <= i <= n,
                forall|k: int|
                    0 <= k < i ==> !((#[trigger] self.links@[k]).message_id == message_id
                        && self.links@[k].token@ == link_token@),
            decreases n - i,
        {
            if self.links[i].message_id == message_id && str_eq(
                self.links[i].token.as_str(),
                link_token,
            ) {
                proof {
                    lemma_link_by_pair_at(self.links@, message_id, link_token@, i as int);
                }
                return Ok(Some(self.links[i].duplicate()));
            }
            i += 1;
        }
        proof {
            lemma_link_by_pair_none(self.links@, message_id, link_token@);
        }
        Ok(None)
    }

    fn get_message_link_by_token(&self, link_token: &str) -> (r: Result<
        Option<MessageLink>,
        StoreError,
    >)
        ensures
            r is Ok,
    {
        let n = self.links.len();
        let mut i: usize = 0;
        while i < n
            invariant
                n == self.links.len(),
                0 <= i <= n,
                forall|k: int| 0 <= k < i ==> (#[trigger] self.links@[k]).token@ != link_token@,
            decreases n - i,
        {
            if str_eq(self.links[i].token.as_str(), link_token) {
                proof {
                    lemma_link_by_token_at(self.links@, link_token@, i as int);
                }
                return Ok(Some(self.links[i].duplicate()));
            }
            i += 1;
        }
        proof {
            lemma_link_by_token_none(self.links@, link_token@);
        }
        Ok(None)
    }

    fn get_message_links(&self, message_id: u128) -> (r: Result<Vec<MessageLink>, StoreError>)
        ensures
            r is Ok,
    {
        let n = self.links.len();
        let mut out: Vec<MessageLink> = Vec::new();
        let mut i: usize = 0;
        proof {
            assert(self.links@.take(0) =~= Seq::<MessageLink>::empty());
        }
        while i < n
            invariant
                n == self.links.len(),
                0 <= i <= n,
                out@ == links_of_message(self.links@.take(i as int), message_id),
            decreases n - i,
        {
            proof {
                assert(self.links@.take(i + 1).drop_last() =~= self.links@.take(i as int));
                assert(self.links@.take(i + 1).last() == self.links@[i as int]);
            }
            if self.links[i].message_id == message_id {
                out.push(self.links[i].duplicate());
            }
            i += 1;
        }
        proof {
            assert(self.links@.take(n as int) =~= self.links@);
        }
        Ok(out)
    }

    fn set_message_link(
        &mut self,
        message_id: u128,
        link_token: &str,
        access: i16,
        expires_at: Option<i64>,
        resource: Option<&str>,
    ) -> (r: Result<MessageLink, SetError>)
        ensures
            r matches Err(e) ==> e is Conflict,
    {
        let n = self.links.len();
        let mut i: usize = 0;
        while i < n
            invariant
                n == self.links.len(),
                0 <= i <= n,
                self == old(self),
                forall|k: int| 0 <= k < i ==> (#[trigger] self.links@[k]).token@ != link_token@,
            decreases n - i,
        {
            if str_eq(self.links[i].token.as_str(), link_token) {
                proof {
                    lemma_link_by_token_at(self.links@, link_token@, i as int);
                }
                return Err(SetError::Conflict);
            }
            i += 1;
        }
        proof {
            lemma_link_by_token_none(self.links@, link_token@);
        }
        let l = MessageLink {
            access,
            expires_at,
            message_id,
            resource: match resource {
                Some(s) => Some(s.to_owned()),
                None => None,
            },
            token: link_token.to_owned(),
        };
        let ret = l.duplicate();
        self.links.push(l);
        proof {
            let s = old(self).links@;
            let t = self.links@;
            assert forall|a: int, b: int| 0 <= a < b < t.len() implies #[trigger] links_distinct(
                t[a],
                t[b],
            ) by {
                if b < s.len() {
                    assert(links_distinct(s[a], s[b]));
                } else {
                    assert(t[a] == s[a]);
                }
            }
        }
        Ok(ret)
    }

    fn delete_message_link(&mut self, message_id: u128, link_token: &str) -> (r: Result<
        bool,
        StoreError,
    >)
        ensures
            r is Ok,
    {
        let n = self.links.len();
        let mut i: usize = 0;
        while i < n
            invariant
                n == self.links.len(),
                0 <= i <= n,
                self == old(self),
                forall|k: int|
                    0 <= k < i ==> !((#[trigger] self.links@[k]).message_id == message_id
                        && self.links@[k].token@ == link_token@),
            decreases n - i,
        {
            if self.links[i].message_id == message_id && str_eq(
                self.links[i].token.as_str(),
                link_token,
            ) {
                self.links.remove(i);
                proof {
                    lemma_remove_link_distinct(old(self).links@, i as int);
                }
                return Ok(true);
            }
            i += 1;
        }
        proof {
            lemma_link_by_pair_none(self.links@, message_id, link_token@);
        }
        Ok(false)
    }
}

} // verus!
