//! Small shared helpers: string equality, the service-level error value and
//! its HTTP shape, and the mapping of store lookups to responses.

use vstd::prelude::*;
use vstd::string::StringSliceAdditionalSpecFns;
use vstd::string::{StrSliceExecFns, StringExecFns};
use vstd::utf8::encode_utf8_decode_utf8;

use crate::errors::Error;
use crate::json::{json_of_error, json_of_error_list, lit};
use crate::store::StoreError;

verus! {

/// String equality by content, decided through the byte encoding.
pub fn str_eq(a: &str, b: &str) -> (r: bool)
    ensures
        r == (a@ == b@),
{
    let ab = StrSliceExecFns::as_bytes_vec(a);
    let bb = StrSliceExecFns::as_bytes_vec(b);
    if ab.len() != bb.len() {
        return false;
    }
    let mut i: usize = 0;
    while i < ab.len()
        invariant
            ab@ == a.spec_bytes(),
            bb@ == b.spec_bytes(),
            ab@.len() == bb@.len(),
            0 <= i <= ab@.len(),
            forall|k: int| 0 <= k < i ==> ab@[k] == bb@[k],
        decreases ab.len() - i,
    {
        if ab[i] != bb[i] {
            return false;
        }
        i += 1;
    }
    proof {
        assert(a.spec_bytes() =~= b.spec_bytes());
        encode_utf8_decode_utf8(a@);
        encode_utf8_decode_utf8(b@);
    }
    true
}

/// A locally produced failure: the HTTP status it maps to and the human
/// detail that goes into the error envelope.
#[derive(Debug)]
pub struct ApiError {
    pub status: u16,
    pub detail: String,
}

/// The parts of an HTTP response the core computes; the serving edge only
/// copies them onto the wire.
#[derive(Debug)]
pub struct HttpEnvelope {
    pub status_code: u16,
    pub www_authenticate: Option<String>,
    pub content_type: Option<String>,
    pub body: Vec<u8>,
}

/// A one-error failure with the given status and detail.
pub fn single_error(status: u16, detail: &str) -> (r: ApiError)
    ensures
        r.status == status,
        r.detail@ == detail@,
{
    ApiError { status, detail: detail.to_owned() }
}

/// A credential-class failure: status 401; its response always carries the
/// `WWW-Authenticate: Basic` challenge.
pub fn unauthorized_error(detail: &str) -> (r: ApiError)
    ensures
        r.status == 401,
        r.detail@ == detail@,
{
    ApiError { status: 401, detail: detail.to_owned() }
}

/// The one error object of a single-error envelope: status and detail set,
/// everything else absent.
pub open spec fn is_single_error(e: Error, status: u16, detail: Seq<char>) -> bool {
    e.code is None && e.id is None && e.source is None && e.title is None && e.meta is None
        && e.status == Some(status) && (e.detail matches Some(d) && d@ == detail)
}

/// The envelope bytes for a list of error objects.
pub open spec fn envelope_json_of(es: Seq<Error>) -> Seq<u8> {
    lit("{\"errors\":["@) + json_of_error_list(es) + lit("]}"@)
}

/// A single-error body is a function of the status and the detail text
/// alone: any two error objects with those fields have the same bytes.
pub proof fn lemma_single_error_json_det(e1: Error, e2: Error, status: u16, detail: Seq<char>)
    requires
        is_single_error(e1, status, detail),
        is_single_error(e2, status, detail),
    ensures
        json_of_error(e1) == json_of_error(e2),
        envelope_json_of(seq![e1]) == envelope_json_of(seq![e2]),
{
    assert(seq![e1].drop_last() =~= Seq::<Error>::empty());
    assert(seq![e2].drop_last() =~= Seq::<Error>::empty());
}

impl ApiError {
    /// The HTTP shape of this failure: its status, a single-error JSON
    /// envelope, and the Basic challenge on every 401.
    pub fn to_response(&self) -> (r: HttpEnvelope)
        ensures
            r.status_code == self.status,
            self.status == 401 ==> (r.www_authenticate matches Some(c) && c@ == "Basic"@),
            self.status != 401 ==> r.www_authenticate is None,
            r.content_type matches Some(ct) && ct@ == "application/json"@,
            exists|e: Error|
                is_single_error(e, self.status, self.detail@) && r.body@ == envelope_json_of(
                    seq![e],
                ),
    {
        let e = Error::default().status(self.status).detail(self.detail.as_str());
        let ghost ge = e;
        let resp = crate::errors::ErrorsResponse::default().with_error(e);
        let body = crate::json::envelope_to_json(&resp);
        proof {
            assert(resp.errors@ =~= seq![ge]);
            assert(is_single_error(ge, self.status, self.detail@));
            assert(body@ == envelope_json_of(seq![ge]));
        }
        let www_authenticate = if self.status == 401 {
            Some("Basic".to_owned())
        } else {
            None
        };
        HttpEnvelope {
            status_code: self.status,
            www_authenticate,
            content_type: Some("application/json".to_owned()),
            body,
        }
    }
}

/// Maps a store lookup to the entry or to the response the caller must
/// return: absent entries are 404, store failures are downgraded to a
/// generic 500 with no internal detail.
pub fn resolve_database_entry<T>(result: Result<Option<T>, StoreError>, resource_name: &str) -> (r:
    Result<T, ApiError>)
    ensures
        match result {
            Ok(Some(entry)) => r matches Ok(v) && v == entry,
            Ok(None) => r matches Err(e) && e.status == 404 && e.detail@ == resource_name@
                + " not found"@,
            Err(_) => r matches Err(e) && e.status == 500 && e.detail@ == "Database lookup failed"@,
        },
{
    match result {
        Ok(Some(entry)) => Ok(entry),
        Ok(None) => {
            let detail = resource_name.to_owned().concat(" not found");
            Err(ApiError { status: 404, detail })
        },
        Err(_) => Err(single_error(500, "Database lookup failed")),
    }
}

/// The position of the first `//` at or after `i`, if any.
pub open spec fn first_dslash_at(s: Seq<char>, i: int) -> Option<int>
    decreases s.len() - i,
    when 0 <= i <= s.len()
{
    if i + 1 >= s.len() {
        None
    } else if s[i] == '/' && s[i + 1] == '/' {
        Some(i)
    } else {
        first_dslash_at(s, i + 1)
    }
}

/// What remains of a URL after its protocol part: everything after the first
/// `//`, or the whole string when there is none.
pub open spec fn after_protocol(s: Seq<char>) -> Seq<char> {
    match first_dslash_at(s, 0) {
        Some(i) => s.subrange(i + 2, s.len() as int),
        None => s,
    }
}

/// Strips the protocol prefix from an address (everything up to and
/// including the first `//`); an address without one is returned whole.
#[verifier::loop_isolation(false)]
pub fn remove_protocol(url: String) -> (r: String)
    ensures
        r@ == after_protocol(url@),
{
    let s = url.as_str();
    let n = s.unicode_len();
    let mut i: usize = 0;
    while n > 0 && i < n - 1
        invariant
            n == url@.len(),
            s@ == url@,
            0 <= i <= n || (n == 0 && i == 0),
            first_dslash_at(url@, i as int) == first_dslash_at(url@, 0),
        decreases n - i,
    {
        let c1 = s.get_char(i);
        let c2 = s.get_char(i + 1);
        if c1 == '/' && c2 == '/' {
            let rest = s.substring_char(i + 2, n);
            return rest.to_owned();
        }
        i += 1;
    }
    url
}

/// A missing configuration value, reported at startup.
pub struct MissingEnvVariable {
    pub key: String,
}

impl MissingEnvVariable {
    /// The report's text.
    pub fn message(&self) -> (r: String)
        ensures
            r@ == "Couldnt load missing env variable "@ + self.key@,
    {
        "Couldnt load missing env variable ".to_owned().concat(self.key.as_str())
    }
}

} // verus!
