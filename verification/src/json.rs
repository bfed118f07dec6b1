//! Emission of the wire error envelope as JSON bytes.
//!
//! The envelope shape (`{"errors":[{...}]}`, fields in declaration order,
//! absent fields skipped) is the one error contract clients depend on, so the
//! bytes are produced by verified code against an exact byte-level
//! specification.

use vstd::prelude::*;
use vstd::string::StringSliceAdditionalSpecFns;

use crate::errors::{Error, ErrorsResponse, Source};

verus! {

/// The UTF-8 bytes of a string: the unit both the specification and the
/// emitter speak in.
pub open spec fn lit(s: Seq<char>) -> Seq<u8> {
    vstd::utf8::encode_utf8(s)
}

/// Whether a byte is an ASCII decimal digit.
pub open spec fn is_digit_byte(b: u8) -> bool {
    48 <= b <= 57
}

/// The decimal digit for a value below ten.
pub open spec fn digit_byte(n: nat) -> u8 {
    (48 + n) as u8
}

/// Decimal notation of a natural number, most significant digit first.
pub open spec fn decimal_of(n: nat) -> Seq<u8>
    decreases n,
{
    if n < 10 {
        seq![digit_byte(n)]
    } else {
        decimal_of(n / 10) + seq![digit_byte(n % 10)]
    }
}

/// Decimal notation of an integer, with a leading minus sign when negative.
pub open spec fn int_decimal_of(n: int) -> Seq<u8> {
    if n < 0 {
        lit("-"@) + decimal_of((-n) as nat)
    } else {
        decimal_of(n as nat)
    }
}

/// What one byte of string content becomes inside a JSON string: the two
/// double-quote and backslash escapes, the short control escapes, `\u00XX`
/// for the remaining control bytes, and everything else unchanged.
pub open spec fn escaped_byte(b: u8) -> Seq<u8> {
    if b == 34 {
        seq![92u8, 34u8]
    } else if b == 92 {
        seq![92u8, 92u8]
    } else if b == 8 {
        seq![92u8, 98u8]
    } else if b == 9 {
        seq![92u8, 116u8]
    } else if b == 10 {
        seq![92u8, 110u8]
    } else if b == 12 {
        seq![92u8, 102u8]
    } else if b == 13 {
        seq![92u8, 114u8]
    } else if b < 32 {
        seq![92u8, 117u8, 48u8, 48u8, hex_digit((b / 16) as nat), hex_digit((b % 16) as nat)]
    } else {
        seq![b]
    }
}

/// The lower-case hexadecimal digit for a value below sixteen.
pub open spec fn hex_digit(n: nat) -> u8 {
    if n < 10 {
        (48 + n) as u8
    } else {
        (87 + n) as u8
    }
}

/// JSON string-content escaping, byte by byte.
pub open spec fn escape_bytes(s: Seq<u8>) -> Seq<u8>
    decreases s.len(),
{
    if s.len() == 0 {
        Seq::empty()
    } else {
        escaped_byte(s[0]) + escape_bytes(s.drop_first())
    }
}

/// A JSON string: quoted, escaped content.
pub open spec fn json_string(content: Seq<u8>) -> Seq<u8> {
    lit("\""@) + escape_bytes(content) + lit("\""@)
}

/// The separator written before a member: a comma unless the member is the
/// object's first.
pub open spec fn sep(acc: Seq<u8>) -> Seq<u8> {
    if acc.len() == 0 {
        Seq::<u8>::empty()
    } else {
        lit(","@)
    }
}

/// Escaping distributes over appending one byte.
pub proof fn lemma_escape_push(s: Seq<u8>, x: u8)
    ensures
        escape_bytes(s.push(x)) == escape_bytes(s) + escaped_byte(x),
    decreases s.len(),
{
    if s.len() == 0 {
        let t = s.push(x);
        assert(t[0] == x);
        assert(t.drop_first() =~= Seq::<u8>::empty());
        assert(escape_bytes(t.drop_first()) =~= Seq::<u8>::empty());
        assert(escape_bytes(t) =~= escaped_byte(x) + Seq::<u8>::empty());
        assert(escape_bytes(t) =~= escape_bytes(s) + escaped_byte(x));
    } else {
        assert(s.push(x).drop_first() =~= s.drop_first().push(x));
        lemma_escape_push(s.drop_first(), x);
        assert(escape_bytes(s.push(x)) =~= escape_bytes(s) + escaped_byte(x));
    }
}

/// Appends the bytes of `s` to `out`.
pub fn push_str_bytes(out: &mut Vec<u8>, s: &str)
    ensures
        final(out)@ == old(out)@ + s.spec_bytes(),
{
    let bytes = vstd::string::StrSliceExecFns::as_bytes_vec(s);
    let mut i: usize = 0;
    while i < bytes.len()
        invariant
            0 <= i <= bytes.len(),
            bytes@ == s.spec_bytes(),
            out@ == old(out)@ + bytes@.take(i as int),
        decreases bytes.len() - i,
    {
        out.push(bytes[i]);
        proof {
            assert(bytes@.take(i + 1) =~= bytes@.take(i as int).push(bytes@[i as int]));
            assert(old(out)@ + bytes@.take(i + 1) =~= (old(out)@ + bytes@.take(i as int)).push(
                bytes@[i as int],
            ));
        }
        i += 1;
    }
    proof {
        assert(bytes@.take(bytes@.len() as int) =~= bytes@);
    }
}

/// Appends the decimal notation of `n` to `out`.
pub fn push_decimal_u64(out: &mut Vec<u8>, n: u64)
    ensures
        final(out)@ == old(out)@ + decimal_of(n as nat),
    decreases n,
{
    if n >= 10 {
        proof {
            assert(n / 10 < n) by (nonlinear_arith)
                requires
                    n >= 10,
            ;
        }
        push_decimal_u64(out, n / 10);
        out.push(48 + (n % 10) as u8);
        proof {
            assert((old(out)@ + decimal_of((n / 10) as nat)).push(digit_byte((n % 10) as nat))
                =~= old(out)@ + decimal_of(n as nat));
        }
    } else {
        out.push(48 + (n % 10) as u8);
        proof {
            assert(n % 10 == n as nat);
            assert(old(out)@.push(digit_byte(n as nat)) =~= old(out)@ + decimal_of(n as nat));
        }
    }
}

/// Appends the decimal notation of a signed value to `out`.
pub fn push_decimal_i64(out: &mut Vec<u8>, n: i64)
    ensures
        final(out)@ == old(out)@ + int_decimal_of(n as int),
{
    if n < 0 {
        push_str_bytes(out, "-");
        let magnitude: u64 = ((-(n + 1)) as u64) + 1;
        proof {
            assert(magnitude as nat == (-(n as int)) as nat);
            assert("-"@.len() == 1) by {
                reveal_strlit("-");
            }
            assert("-".spec_bytes() == lit("-"@));
        }
        push_decimal_u64(out, magnitude);
        proof {
            assert(old(out)@ + "-".spec_bytes() + decimal_of(magnitude as nat) =~= old(out)@
                + int_decimal_of(n as int));
        }
    } else {
        push_decimal_u64(out, n as u64);
    }
}

/// Appends the escaped content bytes of `s` to `out`.
pub fn push_escaped(out: &mut Vec<u8>, s: &str)
    ensures
        final(out)@ == old(out)@ + escape_bytes(s.spec_bytes()),
{
    let bytes = vstd::string::StrSliceExecFns::as_bytes_vec(s);
    let mut i: usize = 0;
    while i < bytes.len()
        invariant
            0 <= i <= bytes.len(),
            bytes@ == s.spec_bytes(),
            out@ == old(out)@ + escape_bytes(bytes@.take(i as int)),
        decreases bytes.len() - i,
    {
        let b = bytes[i];
        proof {
            lemma_escape_push(bytes@.take(i as int), b);
            assert(bytes@.take(i + 1) =~= bytes@.take(i as int).push(b));
        }
        if b == 34 {
            out.push(92);
            out.push(34);
        } else if b == 92 {
            out.push(92);
            out.push(92);
        } else if b == 8 {
            out.push(92);
            out.push(98);
        } else if b == 9 {
            out.push(92);
            out.push(116);
        } else if b == 10 {
            out.push(92);
            out.push(110);
        } else if b == 12 {
            out.push(92);
            out.push(102);
        } else if b == 13 {
            out.push(92);
            out.push(114);
        } else if b < 32 {
            out.push(92);
            out.push(117);
            out.push(48);
            out.push(48);
            out.push(if b / 16 < 10 {
                48 + b / 16
            } else {
                87 + b / 16
            });
            out.push(if b % 16 < 10 {
                48 + b % 16
            } else {
                87 + b % 16
            });
        } else {
            out.push(b);
        }
        proof {
            assert(out@ =~= old(out)@ + escape_bytes(bytes@.take(i + 1)));
        }
        i += 1;
    }
    proof {
        assert(bytes@.take(bytes@.len() as int) =~= bytes@);
    }
}

/// Appends a whole JSON string (quotes and escaped content) to `out`.
pub fn push_json_string(out: &mut Vec<u8>, s: &str)
    ensures
        final(out)@ == old(out)@ + json_string(s.spec_bytes()),
{
    push_str_bytes(out, "\"");
    push_escaped(out, s);
    push_str_bytes(out, "\"");
    proof {
        assert(old(out)@ + "\"".spec_bytes() + escape_bytes(s.spec_bytes()) + "\"".spec_bytes()
            =~= old(out)@ + json_string(s.spec_bytes()));
    }
}

/// The members of the `source` object, in declaration order.
pub open spec fn source_members(s: Source) -> Seq<u8> {
    let acc = Seq::<u8>::empty();
    let acc = if s.pointer is Some {
        acc + sep(acc) + lit("\"pointer\":"@) + json_string(lit(s.pointer.unwrap()@))
    } else {
        acc
    };
    let acc = if s.parameter is Some {
        acc + sep(acc) + lit("\"parameter\":"@) + json_string(lit(s.parameter.unwrap()@))
    } else {
        acc
    };
    acc
}

/// The `source` object as JSON bytes.
pub open spec fn json_of_source(s: Source) -> Seq<u8> {
    lit("{"@) + source_members(s) + lit("}"@)
}

/// The members of the `meta` object: one string pair per entry, in order.
pub open spec fn meta_members(m: Seq<(String, String)>) -> Seq<u8>
    decreases m.len(),
{
    if m.len() == 0 {
        Seq::empty()
    } else {
        let prefix = meta_members(m.drop_last());
        let entry = json_string(lit(m.last().0@)) + lit(":"@) + json_string(lit(m.last().1@));
        prefix + sep(prefix) + entry
    }
}

/// The `meta` object as JSON bytes.
pub open spec fn json_of_meta(m: Seq<(String, String)>) -> Seq<u8> {
    lit("{"@) + meta_members(m) + lit("}"@)
}

/// The members of one error object, in the envelope's declaration order,
/// absent fields skipped.
pub open spec fn error_members(e: Error) -> Seq<u8> {
    let acc = Seq::<u8>::empty();
    let acc = if e.code is Some {
        acc + sep(acc) + lit("\"code\":"@) + json_string(lit(e.code.unwrap()@))
    } else {
        acc
    };
    let acc = if e.detail is Some {
        acc + sep(acc) + lit("\"detail\":"@) + json_string(lit(e.detail.unwrap()@))
    } else {
        acc
    };
    let acc = if e.id is Some {
        acc + sep(acc) + lit("\"id\":"@) + json_string(lit(e.id.unwrap()@))
    } else {
        acc
    };
    let acc = if e.source is Some {
        acc + sep(acc) + lit("\"source\":"@) + json_of_source(e.source.unwrap())
    } else {
        acc
    };
    let acc = if e.status is Some {
        acc + sep(acc) + lit("\"status\":"@) + decimal_of(e.status.unwrap() as nat)
    } else {
        acc
    };
    let acc = if e.title is Some {
        acc + sep(acc) + lit("\"title\":"@) + json_string(lit(e.title.unwrap()@))
    } else {
        acc
    };
    let acc = if e.meta is Some {
        acc + sep(acc) + lit("\"meta\":"@) + json_of_meta(e.meta.unwrap()@)
    } else {
        acc
    };
    acc
}

/// One error object as JSON bytes.
pub open spec fn json_of_error(e: Error) -> Seq<u8> {
    lit("{"@) + error_members(e) + lit("}"@)
}

/// The error objects of the envelope's list, comma separated.
pub open spec fn json_of_error_list(es: Seq<Error>) -> Seq<u8>
    decreases es.len(),
{
    if es.len() == 0 {
        Seq::empty()
    } else {
        let prefix = json_of_error_list(es.drop_last());
        prefix + sep(prefix) + json_of_error(es.last())
    }
}

/// The whole envelope as JSON bytes.
pub open spec fn json_of_envelope(r: ErrorsResponse) -> Seq<u8> {
    lit("{\"errors\":["@) + json_of_error_list(r.errors@) + lit("]}"@)
}

/// Appends `source` as a JSON object to `out`.
fn push_source(out: &mut Vec<u8>, s: &Source)
    ensures
        final(out)@ == old(out)@ + json_of_source(*s),
{
    push_str_bytes(out, "{");
    let mut acc: Vec<u8> = Vec::new();
    if let Some(p) = &s.pointer {
        if acc.len() > 0 {
            push_str_bytes(&mut acc, ",");
        }
        push_str_bytes(&mut acc, "\"pointer\":");
        push_json_string(&mut acc, p.as_str());
    }
    if let Some(p) = &s.parameter {
        if acc.len() > 0 {
            push_str_bytes(&mut acc, ",");
        }
        push_str_bytes(&mut acc, "\"parameter\":");
        push_json_string(&mut acc, p.as_str());
    }
    proof {
        assert(acc@ =~= source_members(*s));
    }
    let mut i: usize = 0;
    while i < acc.len()
        invariant
            0 <= i <= acc.len(),
            out@ == old(out)@ + lit("{"@) + acc@.take(i as int),
            acc@ == source_members(*s),
        decreases acc.len() - i,
    {
        out.push(acc[i]);
        proof {
            assert(acc@.take(i + 1) =~= acc@.take(i as int).push(acc@[i as int]));
            assert(out@ =~= old(out)@ + lit("{"@) + acc@.take(i + 1));
        }
        i += 1;
    }
    proof {
        assert(acc@.take(acc@.len() as int) =~= acc@);
    }
    push_str_bytes(out, "}");
    proof {
        assert(old(out)@ + lit("{"@) + source_members(*s) + lit("}"@) =~= old(out)@
            + json_of_source(*s));
    }
}

/// Appends the content of `v` to `out`.
pub fn push_vec(out: &mut Vec<u8>, v: &Vec<u8>)
    ensures
        final(out)@ == old(out)@ + v@,
{
    let mut i: usize = 0;
    while i < v.len()
        invariant
            0 <= i <= v.len(),
            out@ == old(out)@ + v@.take(i as int),
        decreases v.len() - i,
    {
        out.push(v[i]);
        proof {
            assert(v@.take(i + 1) =~= v@.take(i as int).push(v@[i as int]));
            assert(out@ =~= old(out)@ + v@.take(i + 1));
        }
        i += 1;
    }
    proof {
        assert(v@.take(v@.len() as int) =~= v@);
    }
}

/// Appends `meta` as a JSON object to `out`.
fn push_meta(out: &mut Vec<u8>, m: &Vec<(String, String)>)
    ensures
        final(out)@ == old(out)@ + json_of_meta(m@),
{
    push_str_bytes(out, "{");
    let mut acc: Vec<u8> = Vec::new();
    let mut i: usize = 0;
    while i < m.len()
        invariant
            0 <= i <= m.len(),
            acc@ == meta_members(m@.take(i as int)),
        decreases m.len() - i,
    {
        proof {
            assert(m@.take(i + 1).drop_last() =~= m@.take(i as int));
            assert(m@.take(i + 1).last() == m@[i as int]);
        }
        if acc.len() > 0 {
            push_str_bytes(&mut acc, ",");
        }
        push_json_string(&mut acc, m[i].0.as_str());
        push_str_bytes(&mut acc, ":");
        push_json_string(&mut acc, m[i].1.as_str());
        proof {
            assert(acc@ =~= meta_members(m@.take(i + 1)));
        }
        i += 1;
    }
    proof {
        assert(m@.take(m@.len() as int) =~= m@);
    }
    push_vec(out, &acc);
    push_str_bytes(out, "}");
    proof {
        assert(old(out)@ + lit("{"@) + meta_members(m@) + lit("}"@) =~= old(out)@ + json_of_meta(
            m@,
        ));
    }
}

/// One error object of the envelope as JSON bytes.
pub fn error_to_json(e: &Error) -> (r: Vec<u8>)
    ensures
        r@ == json_of_error(*e),
{
    let mut acc: Vec<u8> = Vec::new();
    if let Some(v) = &e.code {
        if acc.len() > 0 {
            push_str_bytes(&mut acc, ",");
        }
        push_str_bytes(&mut acc, "\"code\":");
        push_json_string(&mut acc, v.as_str());
    }
    if let Some(v) = &e.detail {
        if acc.len() > 0 {
            push_str_bytes(&mut acc, ",");
        }
        push_str_bytes(&mut acc, "\"detail\":");
        push_json_string(&mut acc, v.as_str());
    }
    if let Some(v) = &e.id {
        if acc.len() > 0 {
            push_str_bytes(&mut acc, ",");
        }
        push_str_bytes(&mut acc, "\"id\":");
        push_json_string(&mut acc, v.as_str());
    }
    if let Some(v) = &e.source {
        if acc.len() > 0 {
            push_str_bytes(&mut acc, ",");
        }
        push_str_bytes(&mut acc, "\"source\":");
        push_source(&mut acc, v);
    }
    if let Some(v) = &e.status {
        if acc.len() > 0 {
            push_str_bytes(&mut acc, ",");
        }
        push_str_bytes(&mut acc, "\"status\":");
        push_decimal_u64(&mut acc, *v as u64);
    }
    if let Some(v) = &e.title {
        if acc.len() > 0 {
            push_str_bytes(&mut acc, ",");
        }
        push_str_bytes(&mut acc, "\"title\":");
        push_json_string(&mut acc, v.as_str());
    }
    if let Some(v) = &e.meta {
        if acc.len() > 0 {
            push_str_bytes(&mut acc, ",");
        }
        push_str_bytes(&mut acc, "\"meta\":");
        push_meta(&mut acc, v);
    }
    proof {
        assert(acc@ =~= error_members(*e));
    }
    let mut out: Vec<u8> = Vec::new();
    push_str_bytes(&mut out, "{");
    push_vec(&mut out, &acc);
    push_str_bytes(&mut out, "}");
    proof {
        assert(out@ =~= json_of_error(*e));
    }
    out
}

/// The whole envelope as JSON bytes: what a service writes on the wire for
/// any failure.
pub fn envelope_to_json(r: &ErrorsResponse) -> (out: Vec<u8>)
    ensures
        out@ == json_of_envelope(*r),
{
    let mut acc: Vec<u8> = Vec::new();
    let mut i: usize = 0;
    while i < r.errors.len()
        invariant
            0 <= i <= r.errors.len(),
            acc@ == json_of_error_list(r.errors@.take(i as int)),
        decreases r.errors.len() - i,
    {
        proof {
            assert(r.errors@.take(i + 1).drop_last() =~= r.errors@.take(i as int));
            assert(r.errors@.take(i + 1).last() == r.errors@[i as int]);
        }
        if acc.len() > 0 {
            push_str_bytes(&mut acc, ",");
        }
        let one = error_to_json(&r.errors[i]);
        push_vec(&mut acc, &one);
        proof {
            assert(acc@ =~= json_of_error_list(r.errors@.take(i + 1)));
        }
        i += 1;
    }
    proof {
        assert(r.errors@.take(r.errors@.len() as int) =~= r.errors@);
    }
    let mut out: Vec<u8> = Vec::new();
    push_str_bytes(&mut out, "{\"errors\":[");
    push_vec(&mut out, &acc);
    push_str_bytes(&mut out, "]}");
    proof {
        assert(out@ =~= json_of_envelope(*r));
    }
    out
}

} // verus!
