use authcore::crypto::{Argon, HashError, Hasher};

#[test]
fn hash_then_verify_same_password() {
    sodiumoxide::init().unwrap();
    let argon = Argon::new();
    let hash = argon.hash("correct horse battery staple").unwrap();
    assert!(hash.len() <= 128);
    assert!(hash.starts_with("$argon2id$"));
    let ok = argon.verify(&hash, "correct horse battery staple").unwrap();
    assert!(ok);
}

#[test]
fn verify_rejects_other_password() {
    sodiumoxide::init().unwrap();
    let argon = Argon::new();
    let hash = argon.hash("first password").unwrap();
    let ok = argon.verify(&hash, "second password").unwrap();
    assert!(!ok);
}

#[test]
fn verify_malformed_hash_is_an_error_not_a_mismatch() {
    sodiumoxide::init().unwrap();
    let argon = Argon::new();
    // A stored hash that does not lay out as an encoded argon2id string is
    // corrupt data: it must surface as a failure, never as "incorrect
    // password".
    assert!(argon.verify("not a real hash", "whatever").is_err());
    assert!(argon.verify("", "whatever").is_err());
    assert!(argon.verify("$argon2i$corrupt", "whatever").is_err());
    assert!(argon.verify("$argon2id$garbled", "whatever").is_err());
    assert!(argon.verify("$argon2id$v=19$m=65536,t=2,p=1$", "whatever").is_err());
    assert!(argon.verify("$argon2id$v=19$m=65536,t=2,p=1$salt!$hash", "whatever").is_err());
}

#[test]
fn verify_tampered_hash_is_a_mismatch_not_an_error() {
    sodiumoxide::init().unwrap();
    let argon = Argon::new();
    // A correct-format hash whose content was altered simply does not match.
    let hash = argon.hash("the real password").unwrap();
    let mut tampered: String = hash.chars().take(hash.len() - 1).collect();
    let last = hash.chars().last().unwrap();
    tampered.push(if last == 'A' { 'B' } else { 'A' });
    let ok = argon.verify(&tampered, "the real password").unwrap();
    assert!(!ok);
    // So does a layout-valid string the backend itself never produced.
    let alien = "$argon2id$v=19$m=65536,t=2,p=1$c29tZXNhbHQ$c29tZWhhc2g";
    let ok2 = argon.verify(alien, "whatever").unwrap();
    assert!(!ok2);
}

#[test]
fn verify_oversized_hash_is_an_error() {
    sodiumoxide::init().unwrap();
    let argon = Argon::new();
    let too_long = "x".repeat(129);
    assert!(argon.verify(&too_long, "whatever").is_err());
}

#[test]
fn hash_error_messages() {
    let e = HashError::new("boom");
    assert_eq!(e.message, "boom");
    let e2 = HashError::from_string(String::from("kaput"));
    assert_eq!(e2.message, "kaput");
}
