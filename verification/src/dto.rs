//! The wire-facing data shapes: the public user (without its hash), the
//! validated creation and update requests, and the duration notation used by
//! link expiries.

use vstd::prelude::*;
use vstd::string::StringSliceAdditionalSpecFns;
use vstd::string::StrSliceExecFns;
use vstd::utf8::{encode_utf8, is_leading_byte_width_1, partial_valid_utf8, valid_utf8};

use crate::crypto::string_from_utf8;
use crate::json::{int_decimal_of, is_digit_byte, lit, push_decimal_i64, push_str_bytes};
use crate::store::AuthUser;

verus! {

/// A user as any client may see it. There is no hash field: a stored
/// password hash never leaves the authority service.
#[derive(Debug)]
pub struct User {
    pub id: u128,
    pub created_at: i64,
    pub flags: i64,
    pub username: String,
}

impl User {
    /// The public face of a stored account: every field but the hash.
    pub fn from_auth(user: AuthUser) -> (r: Self)
        ensures
            r.id == user.id,
            r.created_at == user.created_at,
            r.flags == user.flags,
            r.username == user.username,
    {
        Self { id: user.id, created_at: user.created_at, flags: user.flags, username: user.username }
    }
}

/// Shortest and longest allowed username.
pub const MINIMUM_NAME_LENGTH: usize = 3;

/// See `MINIMUM_NAME_LENGTH`.
pub const MAXIMUM_NAME_LENGTH: usize = 32;

/// Shortest and longest allowed password.
pub const MINIMUM_PASSWORD_LENGTH: usize = 8;

/// See `MINIMUM_PASSWORD_LENGTH`.
pub const MAXIMUM_PASSWORD_LENGTH: usize = 120;

/// Whether a character is alphanumeric in the Unicode sense. Names the
/// result of `char::is_alphanumeric`, which depends on the character alone.
pub uninterp spec fn unicode_alphanumeric(c: char) -> bool;

/// Whether a character is whitespace in the Unicode sense. Names the result
/// of `char::is_whitespace`, which depends on the character alone.
pub uninterp spec fn unicode_whitespace(c: char) -> bool;

/// Relies on `char::is_alphanumeric`: the Unicode alphanumeric classes,
/// which the documentation says contain the ASCII letters and digits.
#[verifier::external_body]
fn char_is_alphanumeric(c: char) -> (r: bool)
    ensures
        r == unicode_alphanumeric(c),
        ('a' <= c <= 'z' || 'A' <= c <= 'Z' || '0' <= c <= '9') ==> r,
{
    c.is_alphanumeric()
}

/// Relies on `char::is_whitespace`: the Unicode `White_Space` property,
/// which the documentation says contains space, tab, newline and carriage
/// return.
#[verifier::external_body]
fn char_is_whitespace(c: char) -> (r: bool)
    ensures
        r == unicode_whitespace(c),
        (c == ' ' || c == '\t' || c == '\n' || c == '\r') ==> r,
{
    c.is_whitespace()
}

/// A character a username may hold: word characters (Unicode alphanumerics
/// and the underscore), dashes and whitespace.
pub open spec fn valid_username_char(c: char) -> bool {
    unicode_alphanumeric(c) || unicode_whitespace(c) || c == '_' || c == '-'
}

/// A well-formed username: bounded length, allowed characters only.
pub open spec fn valid_username(s: Seq<char>) -> bool {
    MINIMUM_NAME_LENGTH <= s.len() <= MAXIMUM_NAME_LENGTH && (forall|i: int|
        0 <= i < s.len() ==> valid_username_char(#[trigger] s[i]))
}

/// A well-formed password: bounded length, any content.
pub open spec fn valid_password(s: Seq<char>) -> bool {
    MINIMUM_PASSWORD_LENGTH <= s.len() <= MAXIMUM_PASSWORD_LENGTH
}

/// Whether one character is allowed in a username.
fn is_valid_username_char(c: char) -> (r: bool)
    ensures
        r == valid_username_char(c),
{
    c == '_' || c == '-' || char_is_alphanumeric(c) || char_is_whitespace(c)
}

/// Whether every character of `s` is allowed in a username.
fn all_username_chars(s: &str) -> (r: bool)
    ensures
        r == (forall|i: int| 0 <= i < s@.len() ==> valid_username_char(#[trigger] s@[i])),
{
    let n = s.unicode_len();
    let mut i: usize = 0;
    while i < n
        invariant
            n == s@.len(),
            0 <= i <= n,
            forall|k: int| 0 <= k < i ==> valid_username_char(#[trigger] s@[k]),
        decreases n - i,
    {
        if !is_valid_username_char(s.get_char(i)) {
            return false;
        }
        i += 1;
    }
    true
}

/// A request to create an account.
pub struct ReceivedUser {
    pub flags: i64,
    pub password: String,
    pub username: String,
}

/// What a creation request must satisfy: non-negative flags, bounded
/// password, bounded username over the allowed characters.
pub open spec fn valid_received_user(u: ReceivedUser) -> bool {
    u.flags >= 0 && valid_password(u.password@) && valid_username(u.username@)
}

impl ReceivedUser {
    /// Decides the request's validity.
    pub fn validate(&self) -> (r: bool)
        ensures
            r == valid_received_user(*self),
    {
        let pw_len = self.password.as_str().unicode_len();
        let name_len = self.username.as_str().unicode_len();
        self.flags >= 0 && MINIMUM_PASSWORD_LENGTH <= pw_len && pw_len <= MAXIMUM_PASSWORD_LENGTH
            && MINIMUM_NAME_LENGTH <= name_len && name_len <= MAXIMUM_NAME_LENGTH
            && all_username_chars(self.username.as_str())
    }
}

/// A request to update an account; absent fields are kept.
pub struct UserUpdate {
    pub flags: Option<i64>,
    pub password: Option<String>,
    pub username: Option<String>,
}

/// What an update request must satisfy: each given field alone.
pub open spec fn valid_user_update(u: UserUpdate) -> bool {
    (match u.flags {
        Some(f) => f >= 0,
        None => true,
    }) && (match u.password {
        Some(p) => valid_password(p@),
        None => true,
    }) && (match u.username {
        Some(n) => valid_username(n@),
        None => true,
    })
}

impl UserUpdate {
    /// Decides the request's validity.
    pub fn validate(&self) -> (r: bool)
        ensures
            r == valid_user_update(*self),
    {
        let flags_ok = match &self.flags {
            Some(f) => *f >= 0,
            None => true,
        };
        let password_ok = match &self.password {
            Some(p) => {
                let n = p.as_str().unicode_len();
                MINIMUM_PASSWORD_LENGTH <= n && n <= MAXIMUM_PASSWORD_LENGTH
            },
            None => true,
        };
        let username_ok = match &self.username {
            Some(u) => {
                let n = u.as_str().unicode_len();
                MINIMUM_NAME_LENGTH <= n && n <= MAXIMUM_NAME_LENGTH && all_username_chars(
                    u.as_str(),
                )
            },
            None => true,
        };
        flags_ok && password_ok && username_ok
    }
}

/// The query-parameter form of a link token (`?link=token`), a legacy
/// variant beside the path-embedded form.
pub struct LinkQuery {
    pub link: String,
}

/// The default access bitmask of a received link: none.
pub fn zero_default() -> (r: i16)
    ensures
        r == 0,
{
    0
}

/// A request to create a capability link: an access bitmask, an optional
/// lifetime in seconds, and an optional resource sub-selector.
pub struct ReceivedMessageLink {
    pub access: i16,
    pub expire_after: Option<i64>,
    pub resource: Option<String>,
}

/// ASCII bytes are valid UTF-8.
pub proof fn lemma_ascii_valid_utf8(b: Seq<u8>)
    requires
        forall|i: int| 0 <= i < b.len() ==> b[i] < 128,
    ensures
        valid_utf8(b),
{
    assert(b.subrange(0, 0) =~= Seq::<u8>::empty());
    assert(partial_valid_utf8(b, 0));
    assert forall|i: int| 0 <= 0 <= i < b.len() <= b.len() implies #[trigger] is_leading_byte_width_1(
        b[i],
    ) by {}
    vstd::utf8::partial_valid_utf8_extend_ascii_block(b, 0, b.len() as int);
    assert(b.subrange(0, b.len() as int) =~= b);
}

/// What ISO-8601 duration notation denotes, in whole seconds, if it parses.
/// Names the result of `time_parse::duration::parse`, which depends on its
/// input alone (subsecond precision is dropped).
pub uninterp spec fn iso_duration_secs_of(s: Seq<char>) -> Option<u64>;

/// The longest digit run the duration parser is fed. Thirteen digits of the
/// largest unit (weeks) are still far below what 64-bit arithmetic holds, so
/// every component and their sum stay in range.
pub const MAX_DURATION_DIGITS: usize = 13;

/// Whether every maximal digit run in the bytes from `i` on stays within
/// `MAX_DURATION_DIGITS`, with `run` digits read just before `i`.
pub open spec fn digit_runs_bounded_from(b: Seq<u8>, i: int, run: int) -> bool
    decreases b.len() - i,
    when 0 <= i <= b.len()
{
    if i >= b.len() {
        true
    } else if is_digit_byte(b[i]) {
        run + 1 <= MAX_DURATION_DIGITS && digit_runs_bounded_from(b, i + 1, run + 1)
    } else {
        digit_runs_bounded_from(b, i + 1, 0)
    }
}

/// Whether every maximal digit run in the bytes stays within the bound.
pub open spec fn duration_digits_bounded(b: Seq<u8>) -> bool {
    digit_runs_bounded_from(b, 0, 0)
}

/// Relies on `time_parse::duration::parse`: reads ISO-8601 duration notation
/// (`P1DT2H3M4S`) into whole seconds. The digit bound keeps every component
/// multiplication and their sum inside the parser's 64-bit arithmetic, so
/// the call returns on every admitted input; the parser's source also shows
/// plainly that `PT` followed by decimal digits and `S` denotes exactly
/// those seconds.
#[verifier::external_body]
fn iso_duration_parse(s: &str) -> (r: Option<u64>)
    requires
        duration_digits_bounded(s.spec_bytes()),
    ensures
        r == iso_duration_secs_of(s@),
        forall|n: u64|
            #![auto]
            s.spec_bytes() == lit("PT"@) + crate::json::decimal_of(n as nat) + lit("S"@) ==> r
                == Some(n),
{
    time_parse::duration::parse(s).ok().map(|d| d.as_secs())
}

/// Ten to the `k`.
pub open spec fn pow_ten(k: nat) -> nat
    decreases k,
{
    if k == 0 {
        1
    } else {
        10 * pow_ten((k - 1) as nat)
    }
}

/// A number below ten to the `k` has at most `k` decimal digits.
proof fn lemma_decimal_len(n: nat, k: nat)
    requires
        k >= 1,
        n < pow_ten(k),
    ensures
        crate::json::decimal_of(n).len() <= k,
    decreases n,
{
    if n >= 10 {
        assert(pow_ten(k) == 10 * pow_ten((k - 1) as nat));
        assert(n / 10 < pow_ten((k - 1) as nat)) by (nonlinear_arith)
            requires
                n < 10 * pow_ten((k - 1) as nat),
        ;
        assert(pow_ten((k - 1) as nat) >= 1) by {
            lemma_pow_ten_pos((k - 1) as nat);
        }
        assert(k >= 2) by {
            if k == 1 {
                assert(pow_ten(1nat) == 10);
            }
        }
        lemma_decimal_len(n / 10, (k - 1) as nat);
        assert(n / 10 < n) by (nonlinear_arith)
            requires
                n >= 10,
        ;
    }
}

/// Ten to the `k` is positive.
proof fn lemma_pow_ten_pos(k: nat)
    ensures
        pow_ten(k) >= 1,
    decreases k,
{
    if k > 0 {
        lemma_pow_ten_pos((k - 1) as nat);
    }
}

/// Every decimal digit byte is an ASCII digit.
proof fn lemma_decimal_digits(n: nat)
    ensures
        forall|i: int|
            0 <= i < crate::json::decimal_of(n).len() ==> is_digit_byte(
                #[trigger] crate::json::decimal_of(n)[i],
            ),
    decreases n,
{
    let d = crate::json::decimal_of(n);
    if n < 10 {
        assert(d =~= seq![crate::json::digit_byte(n)]);
    } else {
        lemma_decimal_digits(n / 10);
        let p = crate::json::decimal_of(n / 10);
        assert(d =~= p + seq![crate::json::digit_byte(n % 10)]);
        assert forall|i: int| 0 <= i < d.len() implies is_digit_byte(d[i]) by {
            if i < p.len() {
                assert(d[i] == p[i]);
            } else {
                assert(d[i] == crate::json::digit_byte(n % 10));
            }
        }
    }
}

/// A bounded digit run ahead of an already-bounded tail keeps the whole
/// bounded.
proof fn lemma_run_prefix(b: Seq<u8>, i: int, j: int, run0: int)
    requires
        0 <= i <= j <= b.len(),
        run0 >= 0,
        run0 + (j - i) <= MAX_DURATION_DIGITS,
        forall|k: int| i <= k < j ==> is_digit_byte(#[trigger] b[k]),
        digit_runs_bounded_from(b, j, run0 + (j - i)),
    ensures
        digit_runs_bounded_from(b, i, run0),
    decreases j - i,
{
    if i < j {
        lemma_run_prefix(b, i + 1, j, run0 + 1);
    }
}

/// The writer's own notation, `PT` + digits + `S`, stays within the digit
/// bound whenever the number has at most thirteen digits.
proof fn lemma_notation_bounded(n: nat)
    requires
        crate::json::decimal_of(n).len() <= MAX_DURATION_DIGITS,
    ensures
        duration_digits_bounded(lit("PT"@) + crate::json::decimal_of(n) + lit("S"@)),
{
    reveal_strlit("PT");
    reveal_strlit("S");
    vstd::utf8::is_ascii_chars_encode_utf8("PT"@);
    vstd::utf8::is_ascii_chars_encode_utf8("S"@);
    let d = crate::json::decimal_of(n);
    let b = lit("PT"@) + d + lit("S"@);
    let dl = d.len() as int;
    assert(lit("PT"@).len() == 2 && lit("PT"@)[0] == 80 && lit("PT"@)[1] == 84);
    assert(lit("S"@).len() == 1 && lit("S"@)[0] == 83);
    assert(b.len() == 3 + dl);
    assert(b[0] == 80 && b[1] == 84 && b[2 + dl] == 83);
    lemma_decimal_digits(n);
    assert forall|k: int| 2 <= k < 2 + dl implies is_digit_byte(#[trigger] b[k]) by {
        assert(b[k] == d[k - 2]);
    }
    assert(digit_runs_bounded_from(b, 3 + dl, 0));
    assert(digit_runs_bounded_from(b, 2 + dl, dl));
    lemma_run_prefix(b, 2, 2 + dl, 0);
    assert(digit_runs_bounded_from(b, 1, 0));
    assert(digit_runs_bounded_from(b, 0, 0));
}

/// Reads ISO-8601 duration notation (`P1DT2H3M4S`) into whole seconds: the
/// compute core of the wire deserializer of a link lifetime. Notation with
/// an oversized digit run is rejected before the parser sees it, so the
/// call returns on every input; on the writer's own notation the parser
/// reads the seconds back, inverting `serialize_duration` for non-negative
/// values.
pub fn parse_duration(s: &str) -> (r: Option<u64>)
    ensures
        duration_digits_bounded(s.spec_bytes()) ==> r == iso_duration_secs_of(s@),
        !duration_digits_bounded(s.spec_bytes()) ==> r is None,
        forall|n: u64|
            #![auto]
            n < 10000000000000 && s.spec_bytes() == lit("PT"@) + crate::json::decimal_of(n as nat)
                + lit("S"@) ==> r == Some(n),
{
    let bytes = StrSliceExecFns::as_bytes_vec(s);
    let n = bytes.len();
    let mut i: usize = 0;
    let mut run: usize = 0;
    while i < n
        invariant
            n == bytes.len(),
            bytes@ == s.spec_bytes(),
            0 <= i <= n,
            0 <= run <= MAX_DURATION_DIGITS,
            duration_digits_bounded(bytes@) == digit_runs_bounded_from(bytes@, i as int, run as int),
        decreases n - i,
    {
        let b = bytes[i];
        if 48 <= b && b <= 57 {
            if run + 1 > MAX_DURATION_DIGITS {
                proof {
                    lemma_oversized_notation(s, bytes@);
                }
                return None;
            }
            run += 1;
        } else {
            run = 0;
        }
        i += 1;
    }
    iso_duration_parse(s)
}

/// An input with an oversized digit run cannot be the writer's notation of
/// a thirteen-digit number.
proof fn lemma_oversized_notation(s: &str, b: Seq<u8>)
    requires
        b == s.spec_bytes(),
        !duration_digits_bounded(b),
    ensures
        forall|n: u64|
            #![auto]
            !(n < 10000000000000 && s.spec_bytes() == lit("PT"@) + crate::json::decimal_of(
                n as nat,
            ) + lit("S"@)),
{
    assert forall|n: u64|
        #![auto]
        !(n < 10000000000000 && s.spec_bytes() == lit("PT"@) + crate::json::decimal_of(n as nat)
            + lit("S"@)) by {
        if n < 10000000000000 && s.spec_bytes() == lit("PT"@) + crate::json::decimal_of(n as nat)
            + lit("S"@) {
            assert(pow_ten(13nat) == 10000000000000) by {
                reveal_with_fuel(pow_ten, 14);
            }
            lemma_decimal_len(n as nat, 13nat);
            lemma_notation_bounded(n as nat);
        }
    }
}

/// The duration notation of a link lifetime: `PT{seconds}S`.
pub open spec fn duration_notation(seconds: i64) -> Seq<u8> {
    lit("PT"@) + int_decimal_of(seconds as int) + lit("S"@)
}

/// Decimal digits (and a minus sign) are ASCII.
proof fn lemma_decimal_ascii(n: nat)
    ensures
        forall|i: int|
            0 <= i < crate::json::decimal_of(n).len() ==> #[trigger] crate::json::decimal_of(n)[i]
                < 128,
    decreases n,
{
    let d = crate::json::decimal_of(n);
    if n < 10 {
        assert(d =~= seq![crate::json::digit_byte(n)]);
    } else {
        lemma_decimal_ascii(n / 10);
        let p = crate::json::decimal_of(n / 10);
        assert(d =~= p + seq![crate::json::digit_byte(n % 10)]);
        assert forall|i: int| 0 <= i < d.len() implies d[i] < 128 by {
            if i < p.len() {
                assert(d[i] == p[i]);
            } else {
                assert(d[i] == crate::json::digit_byte(n % 10));
            }
        }
    }
}

/// Writes a link lifetime in duration notation (`PT20S` for twenty
/// seconds).
pub fn serialize_duration(duration_seconds: i64) -> (r: String)
    ensures
        encode_utf8(r@) == duration_notation(duration_seconds),
{
    let mut out: Vec<u8> = Vec::new();
    push_str_bytes(&mut out, "PT");
    push_decimal_i64(&mut out, duration_seconds);
    push_str_bytes(&mut out, "S");
    proof {
        assert(out@ == duration_notation(duration_seconds));
        lemma_ascii_pt(duration_seconds, out@);
    }
    match string_from_utf8(out) {
        Some(s) => s,
        None => String::new(),
    }
}

/// Every byte of the duration notation is ASCII, so it always forms a
/// string.
proof fn lemma_ascii_pt(seconds: i64, b: Seq<u8>)
    requires
        b == duration_notation(seconds),
    ensures
        valid_utf8(b),
{
    reveal_strlit("PT");
    reveal_strlit("S");
    reveal_strlit("-");
    vstd::utf8::is_ascii_chars_encode_utf8("PT"@);
    vstd::utf8::is_ascii_chars_encode_utf8("S"@);
    vstd::utf8::is_ascii_chars_encode_utf8("-"@);
    if seconds < 0 {
        lemma_decimal_ascii((-(seconds as int)) as nat);
    } else {
        lemma_decimal_ascii(seconds as nat);
    }
    assert forall|i: int| 0 <= i < b.len() implies b[i] < 128 by {}
    lemma_ascii_valid_utf8(b);
}

} // verus!
