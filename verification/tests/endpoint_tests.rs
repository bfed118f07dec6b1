use authcore::crypto::{Argon, Hasher};
use authcore::dto::{ReceivedMessageLink, ReceivedUser, UserUpdate};
use authcore::endpoints::{
    delete_current_user, delete_message_link, get_current_user, get_message_link,
    get_message_links, get_shared_message_link, patch_current_user, post_message_link, post_user,
};
use authcore::store::{Database, MemoryStore};
use authcore::utility::{remove_protocol, resolve_database_entry, single_error, unauthorized_error};

fn auth_header_for(username: &str, password: &str) -> String {
    let joined = format!("{}:{}", username, password);
    format!(
        "Basic {}",
        sodiumoxide::base64::encode(joined.as_bytes(), sodiumoxide::base64::Variant::Original)
    )
}

fn admin_store(argon: &Argon) -> (MemoryStore, String) {
    let mut db = MemoryStore::new();
    let hash = argon.hash("admin password").unwrap();
    db.set_user(1, 2, &hash, "admin", 0).unwrap();
    (db, auth_header_for("admin", "admin password"))
}

#[test]
fn created_account_can_authenticate() {
    sodiumoxide::init().unwrap();
    let argon = Argon::new();
    let (mut db, admin_header) = admin_store(&argon);
    let received = ReceivedUser {
        flags: 0,
        password: "br and new pw".to_string(),
        username: "newcomer".to_string(),
    };
    let u = post_user(&mut db, &argon, Some(&admin_header), &received, 2, 50).unwrap();
    assert_eq!(u.id, 2);
    assert_eq!(u.username, "newcomer");
    assert_eq!(u.created_at, 50);
    // The fresh account authenticates with the submitted password.
    let header = auth_header_for("newcomer", "br and new pw");
    let me = get_current_user(&db, &argon, Some(&header)).unwrap();
    assert_eq!(me.id, 2);
}

#[test]
fn post_user_rejections() {
    sodiumoxide::init().unwrap();
    let argon = Argon::new();
    let (mut db, admin_header) = admin_store(&argon);
    // Too short a password: 400 before anything is touched.
    let invalid = ReceivedUser {
        flags: 0,
        password: "short".to_string(),
        username: "someone".to_string(),
    };
    let e = post_user(&mut db, &argon, Some(&admin_header), &invalid, 2, 0).unwrap_err();
    assert_eq!(e.status, 400);
    // An unauthenticated caller may not create accounts.
    let received = ReceivedUser {
        flags: 0,
        password: "long enough pw".to_string(),
        username: "someone".to_string(),
    };
    let e2 = post_user(&mut db, &argon, None, &received, 2, 0).unwrap_err();
    assert_eq!(e2.status, 401);
    // An authenticated caller without the creation flag gets 403.
    let hash = argon.hash("plain password").unwrap();
    db.set_user(5, 0, &hash, "plain", 0).unwrap();
    let plain_header = auth_header_for("plain", "plain password");
    let e3 = post_user(&mut db, &argon, Some(&plain_header), &received, 2, 0).unwrap_err();
    assert_eq!(e3.status, 403);
    // A duplicate username conflicts.
    let dup = ReceivedUser {
        flags: 0,
        password: "long enough pw".to_string(),
        username: "plain".to_string(),
    };
    let e4 = post_user(&mut db, &argon, Some(&admin_header), &dup, 9, 0).unwrap_err();
    assert_eq!(e4.status, 403);
    assert_eq!(e4.detail, "User already exists");
}

#[test]
fn patch_changes_password() {
    sodiumoxide::init().unwrap();
    let argon = Argon::new();
    let mut db = MemoryStore::new();
    let hash = argon.hash("old password").unwrap();
    db.set_user(1, 0, &hash, "alice", 0).unwrap();
    let header = auth_header_for("alice", "old password");
    let update = UserUpdate {
        flags: None,
        password: Some("new password!".to_string()),
        username: None,
    };
    let u = patch_current_user(&mut db, &argon, Some(&header), &update).unwrap();
    assert_eq!(u.username, "alice");
    // The old password no longer authenticates; the new one does.
    assert_eq!(
        get_current_user(&db, &argon, Some(&header)).unwrap_err().status,
        401
    );
    let new_header = auth_header_for("alice", "new password!");
    assert!(get_current_user(&db, &argon, Some(&new_header)).is_ok());
}

#[test]
fn delete_account() {
    sodiumoxide::init().unwrap();
    let argon = Argon::new();
    let mut db = MemoryStore::new();
    let hash = argon.hash("a password!").unwrap();
    db.set_user(1, 0, &hash, "alice", 0).unwrap();
    let header = auth_header_for("alice", "a password!");
    delete_current_user(&mut db, &argon, Some(&header)).unwrap();
    assert!(db.get_user_by_username("alice").unwrap().is_none());
    // The same credentials no longer resolve.
    let e = delete_current_user(&mut db, &argon, Some(&header)).unwrap_err();
    assert_eq!(e.status, 401);
}

#[test]
fn link_endpoints_enforce_ownership() {
    sodiumoxide::init().unwrap();
    let argon = Argon::new();
    let mut db = MemoryStore::new();
    let hash = argon.hash("owner password").unwrap();
    db.set_user(1, 0, &hash, "owner", 0).unwrap();
    let hash2 = argon.hash("other password").unwrap();
    db.set_user(2, 0, &hash2, "other", 0).unwrap();
    assert!(db.add_message(10, 1));
    let owner = auth_header_for("owner", "owner password");
    let other = auth_header_for("other", "other password");

    let received = ReceivedMessageLink { access: 1, expire_after: Some(60), resource: None };
    // A non-owner sees 404, not 403: the message's existence is not leaked.
    let e = post_message_link(&mut db, &argon, Some(&other), 10, &received, 100).unwrap_err();
    assert_eq!(e.status, 404);
    let link = post_message_link(&mut db, &argon, Some(&owner), 10, &received, 100).unwrap();
    assert_eq!(link.message_id, 10);
    assert_eq!(link.expires_at, Some(160));
    assert_eq!(link.token.len(), 43);

    // The by-token legacy endpoint needs no credentials.
    let got = get_message_link(&db, &link.token, 100).unwrap();
    assert_eq!(got.message_id, 10);
    assert_eq!(get_message_link(&db, "missing", 100).unwrap_err().status, 404);
    // The pair-form endpoint resolves the same link, and only under its
    // own message.
    let shared = get_shared_message_link(&db, 10, &link.token, 100).unwrap();
    assert_eq!(shared.token, link.token);
    assert_eq!(get_shared_message_link(&db, 11, &link.token, 100).unwrap_err().status, 404);

    // Listing and deleting are owner-only.
    let ls = get_message_links(&db, &argon, Some(&owner), 10).unwrap();
    assert_eq!(ls.len(), 1);
    assert_eq!(get_message_links(&db, &argon, Some(&other), 10).unwrap_err().status, 404);
    assert_eq!(
        delete_message_link(&mut db, &argon, Some(&other), 10, &link.token).unwrap_err().status,
        404
    );
    delete_message_link(&mut db, &argon, Some(&owner), 10, &link.token).unwrap();
    assert_eq!(get_message_link(&db, &link.token, 100).unwrap_err().status, 404);
}

#[test]
fn expired_links_read_like_absent_ones_on_the_wire() {
    sodiumoxide::init().unwrap();
    let argon = Argon::new();
    let mut db = MemoryStore::new();
    let hash = argon.hash("owner password").unwrap();
    db.set_user(1, 0, &hash, "owner", 0).unwrap();
    assert!(db.add_message(10, 1));
    let owner = auth_header_for("owner", "owner password");
    let received = ReceivedMessageLink { access: 1, expire_after: Some(60), resource: None };
    let link = post_message_link(&mut db, &argon, Some(&owner), 10, &received, 100).unwrap();
    assert_eq!(link.expires_at, Some(160));

    // Before expiry both lookup forms resolve.
    assert!(get_message_link(&db, &link.token, 160).is_ok());
    assert!(get_shared_message_link(&db, 10, &link.token, 160).is_ok());
    // After expiry the link reads exactly like an unknown token.
    let expired = get_message_link(&db, &link.token, 161).unwrap_err();
    let absent = get_message_link(&db, "no-such-token", 161).unwrap_err();
    assert_eq!(expired.status, 404);
    assert_eq!(expired.status, absent.status);
    assert_eq!(expired.detail, absent.detail);
    let expired_pair = get_shared_message_link(&db, 10, &link.token, 161).unwrap_err();
    assert_eq!(expired_pair.status, 404);
    assert_eq!(expired_pair.detail, absent.detail);
}

#[test]
fn utility_helpers() {
    assert_eq!(remove_protocol("https://host:8080/x".to_string()), "host:8080/x");
    assert_eq!(remove_protocol("host:8080/x".to_string()), "host:8080/x");
    assert_eq!(remove_protocol("".to_string()), "");
    assert_eq!(remove_protocol("a//b//c".to_string()), "b//c");

    let found: Result<Option<u32>, authcore::store::StoreError> = Ok(Some(7));
    assert_eq!(resolve_database_entry(found, "message").unwrap(), 7);
    let missing: Result<Option<u32>, authcore::store::StoreError> = Ok(None);
    let e = resolve_database_entry(missing, "message").unwrap_err();
    assert_eq!(e.status, 404);
    assert_eq!(e.detail, "message not found");

    let api = single_error(418, "teapot");
    let env = api.to_response();
    assert_eq!(env.status_code, 418);
    assert!(env.www_authenticate.is_none());
    let api2 = unauthorized_error("no");
    let env2 = api2.to_response();
    assert_eq!(env2.www_authenticate.as_deref(), Some("Basic"));
    assert_eq!(env2.body, br#"{"errors":[{"detail":"no","status":401}]}"#.to_vec());

    let miss = authcore::utility::MissingEnvVariable { key: "DATABASE_URL".to_string() };
    assert_eq!(miss.message(), "Couldnt load missing env variable DATABASE_URL");

    assert_eq!(authcore::dto::zero_default(), 0);
}

#[test]
fn validation_rules() {
    let good = ReceivedUser {
        flags: 0,
        password: "long enough".to_string(),
        username: "good name-1_x".to_string(),
    };
    assert!(good.validate());
    let bad_chars = ReceivedUser {
        flags: 0,
        password: "long enough".to_string(),
        username: "bad!name".to_string(),
    };
    assert!(!bad_chars.validate());
    let neg_flags = ReceivedUser {
        flags: -1,
        password: "long enough".to_string(),
        username: "good name".to_string(),
    };
    assert!(!neg_flags.validate());
    let short_name = ReceivedUser {
        flags: 0,
        password: "long enough".to_string(),
        username: "ab".to_string(),
    };
    assert!(!short_name.validate());
    let long_pw = ReceivedUser {
        flags: 0,
        password: "p".repeat(121),
        username: "good name".to_string(),
    };
    assert!(!long_pw.validate());

    // Unicode word characters are usernames too.
    let unicode_name = ReceivedUser {
        flags: 0,
        password: "long enough".to_string(),
        username: "m\u{fc}ller".to_string(),
    };
    assert!(unicode_name.validate());
    let cyrillic = ReceivedUser {
        flags: 0,
        password: "long enough".to_string(),
        username: "\u{418}\u{432}\u{430}\u{43d}123".to_string(),
    };
    assert!(cyrillic.validate());

    let empty_update = UserUpdate { flags: None, password: None, username: None };
    assert!(empty_update.validate());
    let bad_update = UserUpdate {
        flags: None,
        password: Some("short".to_string()),
        username: None,
    };
    assert!(!bad_update.validate());
}

#[test]
fn upload_validation() {
    assert!(authcore::files::validate_file_upload("notes.txt", "text/plain").is_ok());
    let long_name = "n".repeat(121);
    let e = authcore::files::validate_file_upload(&long_name, "text/plain").unwrap_err();
    assert_eq!(e.status, 400);
    assert_eq!(e.detail, "File name cannot be over 120 characters long");
    let e2 = authcore::files::validate_file_upload("notes.txt", "").unwrap_err();
    assert_eq!(e2.status, 400);
    assert_eq!(e2.detail, "Missing content type header");
    let reader = authcore::files::LocalReader::new("/var/blobs");
    assert_eq!(reader.base_url, "/var/blobs");
}
