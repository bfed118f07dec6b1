//! Credential hashing and verification.
//!
//! A password is hashed by a memory-hard backend (argon2id with interactive
//! cost parameters) into a self-describing ASCII string with an embedded
//! random salt. The backend writes into a fixed-width, zero-padded buffer;
//! the padding is trimmed before storing and restored before verifying, and
//! the proof that the two cancel carries the round-trip guarantee.

use vstd::prelude::*;
use vstd::string::StringSliceAdditionalSpecFns;
use vstd::string::StrSliceExecFns;
use vstd::utf8::encode_utf8;
use sodiumoxide::crypto::pwhash::argon2id13;

use crate::json::{is_digit_byte, lit};

verus! {

/// Width in bytes of the backend's fixed-size hash buffer.
pub const HASH_BUFFER_LEN: usize = 128;

/// The fixed head of an encoded hash: scheme, version, and the opening of
/// the parameter list.
pub open spec fn argon_head() -> Seq<u8> {
    lit("$argon2id$v=19$m="@)
}

/// The separator before the time-cost parameter.
pub open spec fn argon_sep_t() -> Seq<u8> {
    lit(",t="@)
}

/// The separator before the parallelism parameter.
pub open spec fn argon_sep_p() -> Seq<u8> {
    lit(",p="@)
}

/// Whether a byte belongs to the encoded string's base64 alphabet (letters,
/// digits, plus and slash; no padding).
pub open spec fn is_b64_byte(b: u8) -> bool {
    (65 <= b <= 90) || (97 <= b <= 122) || (48 <= b <= 57) || b == 43 || b == 47
}

/// The end of the digit run starting at `i`: the first position at or after
/// `i` holding no digit.
pub open spec fn digit_run_end(b: Seq<u8>, i: int) -> int
    decreases b.len() - i,
    when 0 <= i <= b.len()
{
    if i >= b.len() || !is_digit_byte(b[i]) {
        i
    } else {
        digit_run_end(b, i + 1)
    }
}

/// The end of the base64 run starting at `i`.
pub open spec fn b64_run_end(b: Seq<u8>, i: int) -> int
    decreases b.len() - i,
    when 0 <= i <= b.len()
{
    if i >= b.len() || !is_b64_byte(b[i]) {
        i
    } else {
        b64_run_end(b, i + 1)
    }
}

/// A run end never leaves the sequence.
pub proof fn lemma_run_end_bounds(b: Seq<u8>, i: int)
    requires
        0 <= i <= b.len(),
    ensures
        i <= digit_run_end(b, i) <= b.len(),
        i <= b64_run_end(b, i) <= b.len(),
    decreases b.len() - i,
{
    if i < b.len() {
        lemma_run_end_bounds(b, i + 1);
    }
}

/// The layout of an encoded argon2id hash string:
/// `$argon2id$v=19$m=<digits>,t=<digits>,p=<digits>$<base64>$<base64>`,
/// short enough that padding it back to the backend's buffer leaves room
/// for the terminator.
pub open spec fn argon_string_wf(b: Seq<u8>) -> bool {
    let h = argon_head().len() as int;
    b.len() < HASH_BUFFER_LEN && h <= b.len() && b.subrange(0, h) == argon_head() && {
        let m_end = digit_run_end(b, h);
        let ts = m_end + argon_sep_t().len() as int;
        m_end > h && ts <= b.len() && b.subrange(m_end, ts) == argon_sep_t() && {
            let t_end = digit_run_end(b, ts);
            let ps = t_end + argon_sep_p().len() as int;
            t_end > ts && ps <= b.len() && b.subrange(t_end, ps) == argon_sep_p() && {
                let p_end = digit_run_end(b, ps);
                p_end > ps && p_end < b.len() && b[p_end] == 36 && {
                    let salt_end = b64_run_end(b, p_end + 1);
                    salt_end > p_end + 1 && salt_end < b.len() && b[salt_end] == 36 && {
                        salt_end + 1 < b.len() && b64_run_end(b, salt_end + 1) == b.len()
                    }
                }
            }
        }
    }
}

/// Whether the backend's verifier accepts this raw, zero-terminated hash
/// buffer for this password. Names the result of
/// `argon2id13::pwhash_verify`, which on such buffers depends on its two
/// arguments alone.
pub uninterp spec fn argon_accepts(raw: Seq<u8>, password: Seq<u8>) -> bool;

/// Relies on `sodiumoxide::crypto::pwhash::argon2id13::pwhash`: on success
/// the returned buffer is exactly `HASHEDPASSWORDBYTES` (128) bytes — a
/// zero-filled buffer holding a zero-terminated ASCII string of the
/// documented form `$argon2id$v=19$m=<mem>,t=<ops>,p=<par>$<salt>$<hash>` —
/// and `pwhash_verify` accepts it for the hashed password.
#[verifier::external_body]
fn argon_raw_hash(password: &[u8]) -> (r: Option<Vec<u8>>)
    ensures
        r matches Some(v) ==> v@.len() == HASH_BUFFER_LEN && argon_accepts(v@, password@) && (
        forall|i: int| 0 <= i < v@.len() ==> v@[i] < 128) && v@[HASH_BUFFER_LEN - 1] == 0
            && argon_string_wf(trim_spec(v@)),
{
    match argon2id13::pwhash(
        password,
        argon2id13::OPSLIMIT_INTERACTIVE,
        argon2id13::MEMLIMIT_INTERACTIVE,
    ) {
        Ok(h) => Some(h.as_ref().to_vec()),
        Err(()) => None,
    }
}

/// Relies on `sodiumoxide::crypto::pwhash::argon2id13::pwhash_verify` (and
/// `HashedPassword::from_slice`, which accepts every 128-byte slice): returns
/// whether the backend accepts the buffer for the password. The backend
/// reads the buffer as a C string, so a terminating zero byte is required of
/// every input handed to it.
#[verifier::external_body]
fn argon_raw_verify(raw: &[u8], password: &[u8]) -> (r: bool)
    requires
        raw@.len() == HASH_BUFFER_LEN,
        raw@[HASH_BUFFER_LEN - 1] == 0,
    ensures
        r == argon_accepts(raw@, password@),
{
    match argon2id13::HashedPassword::from_slice(raw) {
        Some(h) => argon2id13::pwhash_verify(&h, password),
        None => false,
    }
}

/// Relies on `String::from_utf8`: succeeds exactly on valid UTF-8, and the
/// returned string holds the given bytes.
#[verifier::external_body]
pub(crate) fn string_from_utf8(bytes: Vec<u8>) -> (r: Option<String>)
    ensures
        r is Some <==> vstd::utf8::valid_utf8(bytes@),
        r matches Some(s) ==> encode_utf8(s@) == bytes@,
{
    String::from_utf8(bytes).ok()
}

/// A stored hash with its trailing zero padding removed.
pub open spec fn trim_spec(s: Seq<u8>) -> Seq<u8>
    decreases s.len(),
{
    if s.len() > 0 && s.last() == 0 {
        trim_spec(s.drop_last())
    } else {
        s
    }
}

/// A stored hash padded with zeros back to the backend's buffer width.
pub open spec fn pad_spec(s: Seq<u8>) -> Seq<u8> {
    s + Seq::new((HASH_BUFFER_LEN - s.len()) as nat, |i: int| 0u8)
}

/// Trimming removes a suffix of zeros and nothing else.
pub proof fn lemma_trim_props(s: Seq<u8>)
    ensures
        trim_spec(s).len() <= s.len(),
        trim_spec(s) == s.take(trim_spec(s).len() as int),
        forall|i: int| trim_spec(s).len() <= i < s.len() ==> s[i] == 0,
    decreases s.len(),
{
    if s.len() > 0 && s.last() == 0 {
        lemma_trim_props(s.drop_last());
        assert(s.drop_last().take(trim_spec(s).len() as int) =~= s.take(
            trim_spec(s).len() as int,
        ));
        assert forall|i: int| trim_spec(s).len() <= i < s.len() implies s[i] == 0 by {
            if i < s.len() - 1 {
                assert(s.drop_last()[i] == s[i]);
            } else {
                assert(s[i] == s.last());
            }
        }
    } else {
        assert(s.take(s.len() as int) =~= s);
    }
}

/// Padding a trimmed full-width buffer restores it exactly: the zeros the
/// trim removed are the zeros the pad appends.
pub proof fn lemma_pad_trim(s: Seq<u8>)
    requires
        s.len() == HASH_BUFFER_LEN,
    ensures
        pad_spec(trim_spec(s)) == s,
{
    lemma_trim_props(s);
    assert(pad_spec(trim_spec(s)) =~= s);
}

/// Trimming twice is trimming once: a trimmed sequence has no trailing zero
/// left to remove.
pub proof fn lemma_trim_idempotent(s: Seq<u8>)
    ensures
        trim_spec(trim_spec(s)) == trim_spec(s),
    decreases s.len(),
{
    if s.len() > 0 && s.last() == 0 {
        lemma_trim_idempotent(s.drop_last());
    }
}

/// Whether a stored hash is a plausible product of the backend: its bytes
/// lay out as an encoded argon2id string, short enough that padding it back
/// leaves the terminator the backend reads by. Anything else is a corrupt
/// row, reported as a failure and never as a mismatch. (A string of the
/// right layout whose fields the backend cannot decode is still answered as
/// a mismatch: the layout is what this check can decide.)
pub open spec fn stored_hash_wf(stored: Seq<char>) -> bool {
    argon_string_wf(encode_utf8(stored))
}

/// Whether a stored (trimmed, textual) hash matches a password: the backend
/// accepts the padded buffer.
pub open spec fn stored_matches(stored: Seq<char>, password: Seq<u8>) -> bool {
    argon_accepts(pad_spec(encode_utf8(stored)), password)
}

/// A failure of the hashing backend or a malformed stored hash. Distinct
/// from a mismatch: it surfaces as an internal error, never as "incorrect
/// password", so data corruption is not masked.
#[derive(Clone, Debug)]
pub struct HashError {
    pub message: String,
}

impl HashError {
    /// A hash failure with this message.
    pub fn new(message: &str) -> (r: Self)
        ensures
            r.message@ == message@,
    {
        Self::from_string(message.to_owned())
    }

    /// A hash failure owning this message.
    pub fn from_string(message: String) -> (r: Self)
        ensures
            r.message == message,
    {
        Self { message }
    }
}

/// A password hasher. `accepts` is the implementation's own notion of a
/// stored hash matching a password; `hash` promises its output matches the
/// hashed password and `verify` decides exactly that notion.
pub trait Hasher: Sized {
    /// Whether a stored hash is well formed for this implementation.
    spec fn hash_wf(&self, stored: Seq<char>) -> bool;

    /// Whether a stored hash matches a password.
    spec fn accepts(&self, stored: Seq<char>, password: Seq<u8>) -> bool;

    /// Recomputes with the salt and parameters embedded in `hash` and
    /// compares in constant time. `false` is a mismatch; a malformed stored
    /// hash is an error, never a mismatch, so data corruption is not masked
    /// as "incorrect password".
    fn verify(&self, hash: &str, password: &str) -> (r: Result<bool, HashError>)
        ensures
            r matches Ok(b) ==> b == self.accepts(hash@, password.spec_bytes()),
            r is Ok <==> self.hash_wf(hash@),
    ;

    /// Derives a hash with a fresh random salt embedded in the output; the
    /// result is a self-describing string safe to store directly, with the
    /// backend buffer's trailing zero padding removed.
    fn hash(&self, password: &str) -> (r: Result<String, HashError>)
        ensures
            r matches Ok(h) ==> self.accepts(h@, password.spec_bytes()) && self.hash_wf(h@)
                && trim_spec(encode_utf8(h@)) == encode_utf8(h@),
    ;
}

/// The argon2id backend.
#[derive(Clone, Debug)]
pub struct Argon {}

impl Argon {
    /// The backend needs no state of its own.
    pub fn new() -> (r: Self)
        ensures
            true,
    {
        Self {  }
    }
}

/// Pads a trimmed hash back to the backend's buffer width with zeros.
fn pad_bytes(v: Vec<u8>) -> (r: Vec<u8>)
    requires
        v@.len() <= HASH_BUFFER_LEN,
    ensures
        r@ == pad_spec(v@),
        r@.len() == HASH_BUFFER_LEN,
{
    let mut out = v;
    let ghost orig = out@;
    while out.len() < HASH_BUFFER_LEN
        invariant
            orig.len() <= out@.len() <= HASH_BUFFER_LEN,
            out@ == orig + Seq::new((out@.len() - orig.len()) as nat, |i: int| 0u8),
        decreases HASH_BUFFER_LEN - out.len(),
    {
        out.push(0);
        proof {
            assert(out@ =~= orig + Seq::new((out@.len() - orig.len()) as nat, |i: int| 0u8));
        }
    }
    proof {
        assert(out@ =~= pad_spec(orig));
    }
    out
}

/// Removes the backend buffer's trailing zero padding.
fn trim_zeros(v: Vec<u8>) -> (r: Vec<u8>)
    ensures
        r@ == trim_spec(v@),
{
    let mut out = v;
    let ghost orig = out@;
    while out.len() > 0 && out[out.len() - 1] == 0
        invariant
            trim_spec(out@) == trim_spec(orig),
        decreases out.len(),
    {
        proof {
            assert(out@.drop_last() =~= out@.take(out@.len() - 1));
        }
        out.pop();
    }
    out
}

/// Scans the digit run starting at `start`.
fn digit_run_end_exec(b: &Vec<u8>, start: usize) -> (r: usize)
    requires
        start <= b@.len(),
    ensures
        r == digit_run_end(b@, start as int),
        start <= r <= b@.len(),
{
    let mut i = start;
    while i < b.len() && 48 <= b[i] && b[i] <= 57
        invariant
            start <= i <= b@.len(),
            digit_run_end(b@, start as int) == digit_run_end(b@, i as int),
        decreases b@.len() - i,
    {
        i += 1;
    }
    i
}

/// Scans the base64 run starting at `start`.
fn b64_run_end_exec(b: &Vec<u8>, start: usize) -> (r: usize)
    requires
        start <= b@.len(),
    ensures
        r == b64_run_end(b@, start as int),
        start <= r <= b@.len(),
{
    let mut i = start;
    while i < b.len() && (
        (65 <= b[i] && b[i] <= 90) || (97 <= b[i] && b[i] <= 122) || (48 <= b[i] && b[i] <= 57)
        || b[i] == 43 || b[i] == 47)
        invariant
            start <= i <= b@.len(),
            b64_run_end(b@, start as int) == b64_run_end(b@, i as int),
        decreases b@.len() - i,
    {
        i += 1;
    }
    i
}

/// Whether `b` holds `pat` at position `pos`.
fn matches_at(b: &Vec<u8>, pos: usize, pat: &Vec<u8>) -> (r: bool)
    requires
        pos <= b@.len(),
    ensures
        r == (pos + pat@.len() <= b@.len() && b@.subrange(pos as int, pos + pat@.len()) == pat@),
{
    if pat.len() > b.len() - pos {
        return false;
    }
    let blen = b.len();
    let mut k: usize = 0;
    let mut j = pos;
    while k < pat.len()
        invariant
            blen == b@.len(),
            pos + pat@.len() <= blen,
            0 <= k <= pat@.len(),
            j == pos + k,
            forall|m: int| 0 <= m < k ==> b@[pos + m] == pat@[m],
        decreases pat.len() - k,
    {
        proof {
            assert(j < blen);
        }
        if b[j] != pat[k] {
            proof {
                assert(b@.subrange(pos as int, pos + pat@.len())[k as int] == b@[pos + k]);
            }
            return false;
        }
        k += 1;
        j += 1;
    }
    proof {
        assert(b@.subrange(pos as int, pos + pat@.len()) =~= pat@);
    }
    true
}

/// Decides the encoded-string layout exactly as `argon_string_wf` states
/// it.
fn is_argon_string(b: &Vec<u8>) -> (r: bool)
    ensures
        r == argon_string_wf(b@),
{
    if b.len() >= HASH_BUFFER_LEN {
        return false;
    }
    let head = StrSliceExecFns::as_bytes_vec("$argon2id$v=19$m=");
    if !matches_at(b, 0, &head) {
        return false;
    }
    let h = head.len();
    let m_end = digit_run_end_exec(b, h);
    if m_end == h {
        return false;
    }
    let sep_t = StrSliceExecFns::as_bytes_vec(",t=");
    if !matches_at(b, m_end, &sep_t) {
        return false;
    }
    let ts = m_end + sep_t.len();
    let t_end = digit_run_end_exec(b, ts);
    if t_end == ts {
        return false;
    }
    let sep_p = StrSliceExecFns::as_bytes_vec(",p=");
    if !matches_at(b, t_end, &sep_p) {
        return false;
    }
    let ps = t_end + sep_p.len();
    let p_end = digit_run_end_exec(b, ps);
    if p_end == ps {
        return false;
    }
    if p_end >= b.len() || b[p_end] != 36 {
        return false;
    }
    let salt_end = b64_run_end_exec(b, p_end + 1);
    if salt_end == p_end + 1 {
        return false;
    }
    if salt_end >= b.len() || b[salt_end] != 36 {
        return false;
    }
    if salt_end + 1 >= b.len() {
        return false;
    }
    let hash_end = b64_run_end_exec(b, salt_end + 1);
    hash_end == b.len()
}

impl Hasher for Argon {
    open spec fn hash_wf(&self, stored: Seq<char>) -> bool {
        stored_hash_wf(stored)
    }

    open spec fn accepts(&self, stored: Seq<char>, password: Seq<u8>) -> bool {
        stored_matches(stored, password)
    }

    fn verify(&self, hash: &str, password: &str) -> (r: Result<bool, HashError>) {
        let bytes = StrSliceExecFns::as_bytes_vec(hash);
        if !is_argon_string(&bytes) {
            return Err(HashError::new("Invalid stored hash"));
        }
        let ghost content = bytes@;
        let padded = pad_bytes(bytes);
        proof {
            // The layout keeps the string short of the buffer, so the pad
            // appended at least the terminating zero the backend reads by.
            assert(padded@[HASH_BUFFER_LEN - 1] == pad_spec(content)[HASH_BUFFER_LEN - 1]);
        }
        Ok(argon_raw_verify(padded.as_slice(), password.as_bytes()))
    }

    fn hash(&self, password: &str) -> (r: Result<String, HashError>) {
        let raw = match argon_raw_hash(password.as_bytes()) {
            Some(v) => v,
            None => {
                return Err(HashError::new("Failed to hash password"));
            },
        };
        let ghost raw_view = raw@;
        let trimmed = trim_zeros(raw);
        proof {
            lemma_trim_props(raw_view);
            lemma_pad_trim(raw_view);
            lemma_trim_idempotent(raw_view);
        }
        match string_from_utf8(trimmed) {
            Some(s) => Ok(s),
            None => Err(HashError::new("Failed to parse hashed password")),
        }
    }
}

/// The round trip behind `verify(hash(p), p) == true`: a hash stored after
/// trimming the backend's zero padding is well formed and still matches the
/// password it was derived from, because padding restores the exact buffer
/// the backend produced and accepted.
pub proof fn lemma_hash_roundtrip(raw: Seq<u8>, stored: Seq<char>, password: Seq<u8>)
    requires
        raw.len() == HASH_BUFFER_LEN,
        argon_string_wf(trim_spec(raw)),
        argon_accepts(raw, password),
        encode_utf8(stored) == trim_spec(raw),
    ensures
        stored_hash_wf(stored),
        stored_matches(stored, password),
{
    lemma_trim_props(raw);
    lemma_pad_trim(raw);
}

} // verus!
