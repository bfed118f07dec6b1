use authcore::codec::{decode, BasicParseError};

fn b64(s: &str) -> String {
    sodiumoxide::base64::encode(s.as_bytes(), sodiumoxide::base64::Variant::Original)
}

#[test]
fn decodes_well_formed_basic_header() {
    let header = format!("Basic {}", b64("alice:secret"));
    let cred = decode(&header).unwrap();
    assert_eq!(cred.username, "alice");
    assert_eq!(cred.password, "secret");
}

#[test]
fn scheme_is_case_insensitive() {
    let header = format!("bAsIc {}", b64("alice:secret"));
    let cred = decode(&header).unwrap();
    assert_eq!(cred.username, "alice");
    assert_eq!(cred.password, "secret");
}

#[test]
fn splits_at_first_colon_only() {
    let header = format!("Basic {}", b64("alice:se:cr:et"));
    let cred = decode(&header).unwrap();
    assert_eq!(cred.username, "alice");
    assert_eq!(cred.password, "se:cr:et");
}

#[test]
fn rejects_other_scheme() {
    assert_eq!(decode("Bearer xyz").unwrap_err(), BasicParseError::WrongScheme);
}

#[test]
fn rejects_bad_base64() {
    assert_eq!(decode("Basic ===bad===").unwrap_err(), BasicParseError::InvalidBase64);
}

#[test]
fn rejects_empty_password() {
    let header = format!("Basic {}", b64("alice:"));
    assert_eq!(decode(&header).unwrap_err(), BasicParseError::EmptyPassword);
}

#[test]
fn rejects_empty_username() {
    let header = format!("Basic {}", b64(":secret"));
    assert_eq!(decode(&header).unwrap_err(), BasicParseError::EmptyUsername);
}

#[test]
fn rejects_missing_colon() {
    let header = format!("Basic {}", b64("alicesecret"));
    assert_eq!(decode(&header).unwrap_err(), BasicParseError::MissingColon);
}

#[test]
fn rejects_too_short_value() {
    assert_eq!(decode("Basic").unwrap_err(), BasicParseError::TooShort);
    assert_eq!(decode("").unwrap_err(), BasicParseError::TooShort);
}

#[test]
fn rejects_invalid_text() {
    let bytes: [u8; 4] = [0xff, 0xfe, b':', b'x'];
    let token = sodiumoxide::base64::encode(bytes, sodiumoxide::base64::Variant::Original);
    let header = format!("Basic {}", token);
    assert_eq!(decode(&header).unwrap_err(), BasicParseError::InvalidText);
}

#[test]
fn decoding_is_deterministic() {
    let header = format!("Basic {}", b64("bob:hunter22"));
    let first = decode(&header).unwrap();
    let second = decode(&header).unwrap();
    assert_eq!(first.username, second.username);
    assert_eq!(first.password, second.password);
}
