//! The codec boundary: trusted declarations of the external TOON codec and
//! the JSON transcoding calls, each with its result named. Everything here
//! converts between the library's canonical model and the codec's JSON tree
//! and delegates the real work to the outside crates.

use vstd::prelude::*;
use vstd::utf8::decode_utf8;
use vstd::utf8::valid_utf8;
use serde_json::Number;
use serde_json::Value;
use crate::errors::CodecErrV;
use crate::errors::CodecError;
use crate::options::Delimiter;
use crate::value::Canon;
use crate::value::CanonV;

verus! {

#[verifier::external_type_specification]
#[verifier::external_body]
pub struct ExJsonValue(Value);

#[verifier::external_type_specification]
#[verifier::external_body]
pub struct ExToonError(toon_format::ToonError);

/// Relies on serde_json::Value and serde_json::Number: the canonical model
/// maps one to one onto the codec's JSON tree. A float's decimal text
/// becomes the JSON number with that text; text that is not a JSON number
/// cannot arise from inbound conversion of a real host float and falls back
/// to null deterministically.
#[verifier::external_body]
fn canon_to_value(c: &Canon) -> Value {
    match c {
        Canon::Null => Value::Null,
        Canon::Bool(b) => Value::Bool(*b),
        Canon::Int(i) => Value::Number(Number::from(*i)),
        Canon::Uint(u) => Value::Number(Number::from(*u)),
        Canon::Float(t) => serde_json::from_str::<Number>(t).map(Value::Number).unwrap_or(
            Value::Null,
        ),
        Canon::Str(s) => Value::String(s.clone()),
        Canon::Arr(items) => Value::Array(items.iter().map(canon_to_value).collect()),
        Canon::Obj(entries) => Value::Object(
            entries.iter().map(|(k, v)| (k.clone(), canon_to_value(v))).collect(),
        ),
    }
}

/// Relies on serde_json::Value and serde_json::Number: the inverse mapping.
/// A number is taken as a signed 64-bit integer first, then unsigned, and
/// otherwise carried by its decimal text.
#[verifier::external_body]
fn value_to_canon(v: &Value) -> Canon {
    match v {
        Value::Null => Canon::Null,
        Value::Bool(b) => Canon::Bool(*b),
        Value::Number(n) => match (n.as_i64(), n.as_u64()) {
            (Some(i), _) => Canon::Int(i),
            (None, Some(u)) => Canon::Uint(u),
            _ => Canon::Float(n.to_string()),
        },
        Value::String(s) => Canon::Str(s.clone()),
        Value::Array(items) => Canon::Arr(items.iter().map(value_to_canon).collect()),
        Value::Object(entries) => Canon::Obj(
            entries.iter().map(|(k, v)| (k.clone(), value_to_canon(v))).collect(),
        ),
    }
}

/// Relies on toon_format::ToonError: a parse error carries its 1-based line
/// and its message; every other failure is carried by its display text.
#[verifier::external_body]
fn codec_error_of(e: toon_format::ToonError) -> CodecError {
    match e {
        toon_format::ToonError::ParseError { line, message, .. } => CodecError::Syntax {
            line: line as u64,
            message,
        },
        other => CodecError::Message(other.to_string()),
    }
}

/// The view of an encoding result.
pub open spec fn enc_res_view(r: Result<String, CodecError>) -> Result<Seq<char>, CodecErrV> {
    match r {
        Ok(s) => Ok(s@),
        Err(e) => Err(e@),
    }
}

/// The view of a decoding result.
pub open spec fn dec_res_view(r: Result<Canon, CodecError>) -> Result<CanonV, CodecErrV> {
    match r {
        Ok(c) => Ok(c@),
        Err(e) => Err(e@),
    }
}

/// The view of a JSON parse result.
pub open spec fn parse_res_view(r: Result<Canon, String>) -> Result<CanonV, Seq<char>> {
    match r {
        Ok(c) => Ok(c@),
        Err(m) => Err(m@),
    }
}

/// The view of a JSON print result.
pub open spec fn print_res_view(r: Result<String, String>) -> Result<Seq<char>, Seq<char>> {
    match r {
        Ok(s) => Ok(s@),
        Err(m) => Err(m@),
    }
}

/// What the codec's encoder returns for a canonical value and delimiter.
pub uninterp spec fn spec_toon_encode(v: CanonV, delimiter: Delimiter) -> Result<
    Seq<char>,
    CodecErrV,
>;

/// What the codec's decoder returns for TOON text, a delimiter and the
/// strict flag.
pub uninterp spec fn spec_toon_decode(text: Seq<char>, delimiter: Delimiter, strict: bool) -> Result<
    CanonV,
    CodecErrV,
>;

/// What the JSON parser returns for JSON text.
pub uninterp spec fn spec_json_parse(text: Seq<char>) -> Result<CanonV, Seq<char>>;

/// What the compact JSON printer returns for a canonical value.
pub uninterp spec fn spec_json_print(v: CanonV) -> Result<Seq<char>, Seq<char>>;

/// What the pretty JSON printer returns for a canonical value.
pub uninterp spec fn spec_json_print_pretty(v: CanonV) -> Result<Seq<char>, Seq<char>>;

/// The display text of the UTF-8 validation error for a byte sequence.
pub uninterp spec fn utf8_error_text(bytes: Seq<u8>) -> Seq<char>;

/// Relies on toon_format::encode over a serde_json value: pure text
/// encoding of the canonical value under the chosen delimiter (with the
/// codec's default indentation and no key folding), a function of its
/// inputs alone.
#[verifier::external_body]
pub(crate) fn toon_encode(value: &Canon, delimiter: Delimiter) -> (r: Result<String, CodecError>)
    ensures
        enc_res_view(r) == spec_toon_encode(value@, delimiter),
{
    let opts = toon_format::EncodeOptions::default().with_delimiter(match delimiter {
        Delimiter::Comma => toon_format::Delimiter::Comma,
        Delimiter::Tab => toon_format::Delimiter::Tab,
        Delimiter::Pipe => toon_format::Delimiter::Pipe,
    });
    match toon_format::encode(&canon_to_value(value), &opts) {
        Ok(s) => Ok(s),
        Err(e) => Err(codec_error_of(e)),
    }
}

/// Relies on toon_format::decode to a serde_json value: pure parse of TOON
/// text under the delimiter and strict flag (type coercion on, path
/// expansion off), a function of its inputs alone.
#[verifier::external_body]
pub(crate) fn toon_decode(text: &str, delimiter: Delimiter, strict: bool) -> (r: Result<
    Canon,
    CodecError,
>)
    ensures
        dec_res_view(r) == spec_toon_decode(text@, delimiter, strict),
{
    let opts = toon_format::DecodeOptions::new().with_delimiter(match delimiter {
        Delimiter::Comma => toon_format::Delimiter::Comma,
        Delimiter::Tab => toon_format::Delimiter::Tab,
        Delimiter::Pipe => toon_format::Delimiter::Pipe,
    }).with_strict(strict);
    match toon_format::decode::<Value>(text, &opts) {
        Ok(v) => Ok(value_to_canon(&v)),
        Err(e) => Err(codec_error_of(e)),
    }
}

/// Relies on serde_json::from_str: parses JSON text to the canonical model
/// or reports the parser's message, a function of its input alone.
#[verifier::external_body]
pub(crate) fn json_parse(text: &str) -> (r: Result<Canon, String>)
    ensures
        parse_res_view(r) == spec_json_parse(text@),
{
    match serde_json::from_str::<Value>(text) {
        Ok(v) => Ok(value_to_canon(&v)),
        Err(e) => Err(e.to_string()),
    }
}

/// Relies on serde_json::to_string: compact JSON text for a canonical
/// value, a function of its input alone.
#[verifier::external_body]
pub(crate) fn json_print(value: &Canon) -> (r: Result<String, String>)
    ensures
        print_res_view(r) == spec_json_print(value@),
{
    match serde_json::to_string(&canon_to_value(value)) {
        Ok(s) => Ok(s),
        Err(e) => Err(e.to_string()),
    }
}

/// Relies on serde_json::to_string_pretty: indented JSON text for a
/// canonical value, a function of its input alone.
#[verifier::external_body]
pub(crate) fn json_print_pretty(value: &Canon) -> (r: Result<String, String>)
    ensures
        print_res_view(r) == spec_json_print_pretty(value@),
{
    match serde_json::to_string_pretty(&canon_to_value(value)) {
        Ok(s) => Ok(s),
        Err(e) => Err(e.to_string()),
    }
}

/// Relies on str::from_utf8: succeeds exactly on valid UTF-8, viewing the
/// same bytes as text; the error's display text depends on the bytes alone.
#[verifier::external_body]
pub(crate) fn bytes_to_str(bytes: &[u8]) -> (r: Result<&str, String>)
    ensures
        r matches Ok(s) ==> valid_utf8(bytes@) && s@ == decode_utf8(bytes@),
        r matches Err(m) ==> !valid_utf8(bytes@) && m@ == utf8_error_text(bytes@),
{
    match core::str::from_utf8(bytes) {
        Ok(s) => Ok(s),
        Err(e) => Err(e.to_string()),
    }
}

} // verus!
