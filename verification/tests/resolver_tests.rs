use authcore::crypto::{Argon, Hasher};
use authcore::links;
use authcore::resolver::{resolve_flags, resolve_link, resolve_user, AuthFailure, failure_response};
use authcore::store::{Database, MemoryStore};

fn basic_header(username: &str, password: &str) -> String {
    let joined = format!("{}:{}", username, password);
    format!(
        "Basic {}",
        sodiumoxide::base64::encode(joined.as_bytes(), sodiumoxide::base64::Variant::Original)
    )
}

fn seeded_store(argon: &Argon, username: &str, password: &str, flags: i64) -> MemoryStore {
    let mut db = MemoryStore::new();
    let hash = argon.hash(password).unwrap();
    db.set_user(1, flags, &hash, username, 0).unwrap();
    db
}

#[test]
fn resolves_correct_credentials() {
    sodiumoxide::init().unwrap();
    let argon = Argon::new();
    let db = seeded_store(&argon, "alice", "open sesame", 0);
    let header = basic_header("alice", "open sesame");
    let user = resolve_user(&db, &argon, Some(&header)).unwrap();
    assert_eq!(user.username, "alice");
    assert_eq!(user.id, 1);
}

#[test]
fn missing_and_malformed_headers() {
    sodiumoxide::init().unwrap();
    let argon = Argon::new();
    let db = MemoryStore::new();
    assert!(matches!(
        resolve_user(&db, &argon, None),
        Err(AuthFailure::HeaderMissing)
    ));
    assert!(matches!(
        resolve_user(&db, &argon, Some("Bearer xyz")),
        Err(AuthFailure::HeaderMalformed(_))
    ));
}

#[test]
fn unknown_user_and_wrong_password_are_identical() {
    sodiumoxide::init().unwrap();
    let argon = Argon::new();
    let db = seeded_store(&argon, "alice", "right password", 0);

    let unknown = resolve_user(&db, &argon, Some(&basic_header("nobody", "whatever"))).unwrap_err();
    let wrong = resolve_user(&db, &argon, Some(&basic_header("alice", "wrong password"))).unwrap_err();

    assert_eq!(unknown, AuthFailure::CredentialMismatch);
    assert_eq!(wrong, AuthFailure::CredentialMismatch);
    assert_eq!(unknown, wrong);

    // The wire shape is a function of the failure value: identical status,
    // detail, and body bytes.
    let r1 = failure_response(&unknown);
    let r2 = failure_response(&wrong);
    assert_eq!(r1.status, r2.status);
    assert_eq!(r1.detail, r2.detail);
    let e1 = r1.to_response();
    let e2 = r2.to_response();
    assert_eq!(e1.status_code, e2.status_code);
    assert_eq!(e1.body, e2.body);
    assert_eq!(e1.www_authenticate, e2.www_authenticate);
    assert_eq!(e1.status_code, 401);
    assert_eq!(e1.www_authenticate.as_deref(), Some("Basic"));
}

#[test]
fn flags_check_distinguishes_forbidden_from_unauthorized() {
    sodiumoxide::init().unwrap();
    let argon = Argon::new();
    let db = seeded_store(&argon, "alice", "pw pw pw", 0);
    let header = basic_header("alice", "pw pw pw");
    assert!(matches!(
        resolve_flags(&db, &argon, Some(&header), 4),
        Err(AuthFailure::Forbidden)
    ));
    let r = failure_response(&AuthFailure::Forbidden);
    assert_eq!(r.status, 403);
    // Wanted flag present.
    let db2 = seeded_store(&argon, "bob", "pw pw pw", 4);
    let header2 = basic_header("bob", "pw pw pw");
    assert!(resolve_flags(&db2, &argon, Some(&header2), 4).is_ok());
    // The admin bit passes any check.
    let db3 = seeded_store(&argon, "root", "pw pw pw", 2);
    let header3 = basic_header("root", "pw pw pw");
    assert!(resolve_flags(&db3, &argon, Some(&header3), 4).is_ok());
}

#[test]
fn corrupt_stored_hash_is_internal_not_mismatch() {
    sodiumoxide::init().unwrap();
    let argon = Argon::new();
    let mut db = MemoryStore::new();
    let long_hash = "x".repeat(129);
    db.set_user(1, 0, &long_hash, "alice", 0).unwrap();
    db.set_user(2, 0, "xyz", "bob", 0).unwrap();
    let header = basic_header("alice", "whatever");
    assert!(matches!(
        resolve_user(&db, &argon, Some(&header)),
        Err(AuthFailure::InternalFailure)
    ));
    // A short hash without the argon prefix is just as corrupt.
    let header2 = basic_header("bob", "whatever");
    assert!(matches!(
        resolve_user(&db, &argon, Some(&header2)),
        Err(AuthFailure::InternalFailure)
    ));
    assert_eq!(failure_response(&AuthFailure::InternalFailure).status, 500);
}

#[test]
fn created_link_resolves_exactly_once() {
    sodiumoxide::init().unwrap();
    let mut db = MemoryStore::new();
    let link = links::create(&mut db, 10, 1, None, None).unwrap();
    assert_eq!(link.token.len(), 43);
    // Retrievable by its exact token and resource id immediately after
    // creation.
    let got = links::resolve(&db, 10, &link.token).unwrap().unwrap();
    assert_eq!(got.token, link.token);
    assert_eq!(got.message_id, 10);
    // A different resource id for the same token fails.
    assert!(links::resolve(&db, 11, &link.token).unwrap().is_none());
    // Deletion is idempotent.
    assert!(links::delete(&mut db, 10, &link.token).unwrap());
    assert!(!links::delete(&mut db, 10, &link.token).unwrap());
}

#[test]
fn expired_links_do_not_resolve() {
    sodiumoxide::init().unwrap();
    let mut db = MemoryStore::new();
    let link = links::create(&mut db, 10, 1, Some(1000), None).unwrap();
    assert!(resolve_link(&db, 10, &link.token, 999).is_ok());
    assert!(resolve_link(&db, 10, &link.token, 1000).is_ok());
    assert!(matches!(
        resolve_link(&db, 10, &link.token, 1001),
        Err(AuthFailure::LinkNotFound)
    ));
    // An absent link and an expired link yield the same failure.
    let absent = resolve_link(&db, 10, "no-such-token", 0).unwrap_err();
    let expired = resolve_link(&db, 10, &link.token, 1001).unwrap_err();
    assert_eq!(absent, expired);
    // A link without expiry always resolves.
    let forever = links::create(&mut db, 10, 1, None, None).unwrap();
    assert!(resolve_link(&db, 10, &forever.token, i64::MAX).is_ok());
}

#[test]
fn fresh_tokens_differ() {
    sodiumoxide::init().unwrap();
    let a = links::gen_link_key();
    let b = links::gen_link_key();
    assert_ne!(a, b);
    assert_eq!(a.len(), 43);
}
