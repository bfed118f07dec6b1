use authcore::store::{Database, MemoryStore, SetError};

#[test]
fn set_and_get_user() {
    let mut db = MemoryStore::new();
    let u = db.set_user(1, 0, "hash-a", "alice", 100).unwrap();
    assert_eq!(u.id, 1);
    assert_eq!(u.flags, 0);
    assert_eq!(u.username, "alice");
    assert_eq!(u.password_hash, "hash-a");
    assert_eq!(u.created_at, 100);
    let by_name = db.get_user_by_username("alice").unwrap().unwrap();
    assert_eq!(by_name.id, 1);
    let by_id = db.get_user_by_id(1).unwrap().unwrap();
    assert_eq!(by_id.username, "alice");
    assert!(db.get_user_by_username("bob").unwrap().is_none());
    assert!(db.get_user_by_id(2).unwrap().is_none());
}

#[test]
fn duplicate_username_conflicts() {
    let mut db = MemoryStore::new();
    db.set_user(1, 0, "h1", "alice", 0).unwrap();
    assert!(matches!(db.set_user(2, 0, "h2", "alice", 0), Err(SetError::Conflict)));
    assert!(matches!(db.set_user(1, 0, "h2", "bob", 0), Err(SetError::Conflict)));
    // The failed inserts left the store unchanged.
    assert!(db.get_user_by_username("bob").unwrap().is_none());
}

#[test]
fn update_user_replaces_given_fields_only() {
    let mut db = MemoryStore::new();
    db.set_user(1, 0, "h1", "alice", 7).unwrap();
    let u = db.update_user(1, Some(5), None, Some("alicia")).unwrap().unwrap();
    assert_eq!(u.flags, 5);
    assert_eq!(u.username, "alicia");
    assert_eq!(u.password_hash, "h1");
    assert_eq!(u.created_at, 7);
    assert!(db.get_user_by_username("alice").unwrap().is_none());
    assert!(db.get_user_by_username("alicia").unwrap().is_some());
    // Updating a missing user answers None.
    assert!(db.update_user(99, Some(1), None, None).unwrap().is_none());
}

#[test]
fn update_user_username_conflict_fails() {
    let mut db = MemoryStore::new();
    db.set_user(1, 0, "h1", "alice", 0).unwrap();
    db.set_user(2, 0, "h2", "bob", 0).unwrap();
    assert!(db.update_user(2, None, None, Some("alice")).is_err());
    // The failed update left bob in place.
    assert_eq!(db.get_user_by_id(2).unwrap().unwrap().username, "bob");
}

#[test]
fn delete_user_is_idempotent() {
    let mut db = MemoryStore::new();
    db.set_user(1, 0, "h1", "alice", 0).unwrap();
    assert!(db.delete_user(1).unwrap());
    assert!(!db.delete_user(1).unwrap());
    assert!(db.get_user_by_username("alice").unwrap().is_none());
}

#[test]
fn messages_and_ownership() {
    let mut db = MemoryStore::new();
    assert!(db.add_message(10, 1));
    assert!(!db.add_message(10, 2));
    let m = db.get_message(10).unwrap().unwrap();
    assert_eq!(m.user_id, 1);
    assert!(db.get_message(11).unwrap().is_none());
}

#[test]
fn links_by_pair_and_token() {
    let mut db = MemoryStore::new();
    let l = db.set_message_link(10, "tok-1", 1, Some(500), Some("file.txt")).unwrap();
    assert_eq!(l.message_id, 10);
    assert_eq!(l.access, 1);
    assert_eq!(l.expires_at, Some(500));
    assert_eq!(l.resource.as_deref(), Some("file.txt"));
    assert_eq!(l.token, "tok-1");

    let got = db.get_message_link(10, "tok-1").unwrap().unwrap();
    assert_eq!(got.token, "tok-1");
    // The same token under another message does not resolve.
    assert!(db.get_message_link(11, "tok-1").unwrap().is_none());
    let by_token = db.get_message_link_by_token("tok-1").unwrap().unwrap();
    assert_eq!(by_token.message_id, 10);
    assert!(db.get_message_link_by_token("tok-2").unwrap().is_none());
}

#[test]
fn duplicate_token_conflicts_never_overwrites() {
    let mut db = MemoryStore::new();
    db.set_message_link(10, "tok-1", 1, None, None).unwrap();
    assert!(matches!(
        db.set_message_link(11, "tok-1", 2, None, None),
        Err(SetError::Conflict)
    ));
    // The original row is untouched.
    let got = db.get_message_link_by_token("tok-1").unwrap().unwrap();
    assert_eq!(got.message_id, 10);
    assert_eq!(got.access, 1);
}

#[test]
fn lists_links_of_one_message_in_order() {
    let mut db = MemoryStore::new();
    db.set_message_link(10, "a", 0, None, None).unwrap();
    db.set_message_link(11, "b", 0, None, None).unwrap();
    db.set_message_link(10, "c", 0, None, None).unwrap();
    let ls = db.get_message_links(10).unwrap();
    assert_eq!(ls.len(), 2);
    assert_eq!(ls[0].token, "a");
    assert_eq!(ls[1].token, "c");
}

#[test]
fn delete_link_says_whether_a_row_existed() {
    let mut db = MemoryStore::new();
    db.set_message_link(10, "a", 0, None, None).unwrap();
    assert!(!db.delete_message_link(11, "a").unwrap());
    assert!(db.delete_message_link(10, "a").unwrap());
    assert!(!db.delete_message_link(10, "a").unwrap());
}
