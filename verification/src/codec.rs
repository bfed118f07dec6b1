//! Parsing of the `Authorization: Basic ...` header value.
//!
//! The value must begin with the scheme token `Basic ` (case-insensitive,
//! one space), the remainder must be valid base64, and the decoded bytes must
//! be valid text split by the first colon into a non-empty username and a
//! non-empty password. Any violation is a typed parse error, never a panic,
//! and a given header value always decodes to the same result.

use vstd::prelude::*;
use vstd::string::StringSliceAdditionalSpecFns;
use vstd::string::StrSliceExecFns;
use vstd::utf8::{decode_utf8, encode_utf8, valid_utf8};

use crate::crypto::string_from_utf8;
use crate::seqs::{find_first_index, lemma_find_first_index_is, lemma_find_first_index_none};

verus! {

/// Why a header value failed to decode.
#[derive(Clone, Copy, Debug, PartialEq, Eq, Structural)]
pub enum BasicParseError {
    /// Shorter than the scheme token plus one credential byte.
    TooShort,
    /// The scheme token is not `Basic ` (case-insensitive).
    WrongScheme,
    /// The remainder is not valid base64.
    InvalidBase64,
    /// The decoded bytes are not valid text.
    InvalidText,
    /// The decoded text has no colon.
    MissingColon,
    /// The part before the first colon is empty.
    EmptyUsername,
    /// The part after the first colon is empty.
    EmptyPassword,
}

/// A username/password pair extracted from a Basic header. Ephemeral: it
/// lives for one verification call and is never persisted or logged.
#[derive(Debug)]
pub struct Credential {
    pub username: String,
    pub password: String,
}

/// What base64 decoding (RFC 4648 section 4, with padding) yields for these
/// bytes, if anything. Names the result of `sodiumoxide::base64::decode`
/// with `Variant::Original`, which depends on its input alone.
pub uninterp spec fn b64_decode_of(b: Seq<u8>) -> Option<Seq<u8>>;

/// Relies on `sodiumoxide::base64::decode` with `Variant::Original`: decodes
/// standard base64, failing on invalid characters.
#[verifier::external_body]
fn base64_decode(b: &[u8]) -> (r: Option<Vec<u8>>)
    ensures
        r is Some <==> b64_decode_of(b@) is Some,
        r matches Some(v) ==> Some(v@) == b64_decode_of(b@),
{
    sodiumoxide::base64::decode(b, sodiumoxide::base64::Variant::Original).ok()
}

/// ASCII lower-casing of one byte.
pub open spec fn ascii_lower(b: u8) -> u8 {
    if 65 <= b <= 90 {
        (b + 32) as u8
    } else {
        b
    }
}

/// Whether the first six bytes are the scheme token `Basic ` up to ASCII
/// case.
pub open spec fn scheme_ok(h: Seq<u8>) -> bool {
    h.len() >= 6 && ascii_lower(h[0]) == 98 && ascii_lower(h[1]) == 97 && ascii_lower(h[2]) == 115
        && ascii_lower(h[3]) == 105 && ascii_lower(h[4]) == 99 && ascii_lower(h[5]) == 32
}

/// What `decode` returns for a header value, step by step: scheme token,
/// base64, first-colon split, non-emptiness, text validity.
pub open spec fn basic_decode_spec(header: Seq<char>) -> Result<
    (Seq<char>, Seq<char>),
    BasicParseError,
> {
    let h = encode_utf8(header);
    if h.len() < 7 {
        Err(BasicParseError::TooShort)
    } else if !scheme_ok(h) {
        Err(BasicParseError::WrongScheme)
    } else {
        match b64_decode_of(h.skip(6)) {
            None => Err(BasicParseError::InvalidBase64),
            Some(raw) => match find_first_index(raw, |b: u8| b == 58) {
                None => Err(BasicParseError::MissingColon),
                Some(ci) => {
                    let ub = raw.take(ci);
                    let pb = raw.skip(ci + 1);
                    if ub.len() == 0 {
                        Err(BasicParseError::EmptyUsername)
                    } else if pb.len() == 0 {
                        Err(BasicParseError::EmptyPassword)
                    } else if !valid_utf8(ub) {
                        Err(BasicParseError::InvalidText)
                    } else if !valid_utf8(pb) {
                        Err(BasicParseError::InvalidText)
                    } else {
                        Ok((decode_utf8(ub), decode_utf8(pb)))
                    }
                },
            },
        }
    }
}

/// ASCII lower-casing of one byte.
fn ascii_lower_byte(b: u8) -> (r: u8)
    ensures
        r == ascii_lower(b),
{
    if 65 <= b && b <= 90 {
        b + 32
    } else {
        b
    }
}

/// Decodes a Basic authorization header value into its credential pair, or
/// says exactly why it cannot be.
pub fn decode(header: &str) -> (r: Result<Credential, BasicParseError>)
    ensures
        match basic_decode_spec(header@) {
            Ok((u, p)) => r matches Ok(c) && c.username@ == u && c.password@ == p,
            Err(e) => r == Err::<Credential, BasicParseError>(e),
        },
{
    let h = StrSliceExecFns::as_bytes_vec(header);
    if h.len() < 7 {
        return Err(BasicParseError::TooShort);
    }
    let scheme_matches = ascii_lower_byte(h[0]) == 98 && ascii_lower_byte(h[1]) == 97
        && ascii_lower_byte(h[2]) == 115 && ascii_lower_byte(h[3]) == 105 && ascii_lower_byte(
        h[4],
    ) == 99 && ascii_lower_byte(h[5]) == 32;
    if !scheme_matches {
        return Err(BasicParseError::WrongScheme);
    }
    let mut token: Vec<u8> = Vec::new();
    let mut k: usize = 6;
    while k < h.len()
        invariant
            6 <= k <= h@.len(),
            token@ == h@.subrange(6, k as int),
        decreases h.len() - k,
    {
        token.push(h[k]);
        proof {
            assert(h@.subrange(6, k + 1) =~= h@.subrange(6, k as int).push(h@[k as int]));
        }
        k += 1;
    }
    proof {
        assert(token@ =~= h@.skip(6));
    }
    let raw = match base64_decode(token.as_slice()) {
        Some(v) => v,
        None => {
            return Err(BasicParseError::InvalidBase64);
        },
    };
    let n = raw.len();
    let mut ci: usize = n;
    let mut i: usize = 0;
    while i < n
        invariant
            n == raw.len(),
            0 <= i <= n,
            ci == n || (ci < i && raw@[ci as int] == 58),
            ci == n ==> forall|j: int| 0 <= j < i ==> raw@[j] != 58,
            ci < n ==> forall|j: int| 0 <= j < ci ==> raw@[j] != 58,
        decreases n - i,
    {
        if ci == n && raw[i] == 58 {
            ci = i;
        }
        i += 1;
    }
    proof {
        let p = |b: u8| b == 58;
        if ci < n {
            lemma_find_first_index_is(raw@, p, ci as int);
        } else {
            lemma_find_first_index_none(raw@, p);
        }
    }
    if ci == n {
        return Err(BasicParseError::MissingColon);
    }
    if ci == 0 {
        return Err(BasicParseError::EmptyUsername);
    }
    if ci + 1 == n {
        return Err(BasicParseError::EmptyPassword);
    }
    let mut ub: Vec<u8> = Vec::new();
    let mut j: usize = 0;
    while j < ci
        invariant
            0 <= j <= ci < raw@.len(),
            ub@ == raw@.subrange(0, j as int),
        decreases ci - j,
    {
        ub.push(raw[j]);
        proof {
            assert(raw@.subrange(0, j + 1) =~= raw@.subrange(0, j as int).push(raw@[j as int]));
        }
        j += 1;
    }
    proof {
        assert(ub@ =~= raw@.take(ci as int));
    }
    let mut pb: Vec<u8> = Vec::new();
    let mut j2: usize = ci + 1;
    while j2 < n
        invariant
            n == raw.len(),
            ci + 1 <= j2 <= n,
            pb@ == raw@.subrange(ci + 1, j2 as int),
        decreases n - j2,
    {
        pb.push(raw[j2]);
        proof {
            assert(raw@.subrange(ci + 1, j2 + 1) =~= raw@.subrange(ci + 1, j2 as int).push(
                raw@[j2 as int],
            ));
        }
        j2 += 1;
    }
    proof {
        assert(pb@ =~= raw@.skip(ci + 1));
    }
    let ghost ub_view = ub@;
    let ghost pb_view = pb@;
    let username = match string_from_utf8(ub) {
        Some(u) => u,
        None => {
            return Err(BasicParseError::InvalidText);
        },
    };
    let password = match string_from_utf8(pb) {
        Some(p) => p,
        None => {
            return Err(BasicParseError::InvalidText);
        },
    };
    proof {
        vstd::utf8::encode_utf8_decode_utf8(username@);
        vstd::utf8::encode_utf8_decode_utf8(password@);
    }
    Ok(Credential { username, password })
}

} // verus!
