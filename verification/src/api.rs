//! The operation façade: the public encode/decode entry points, their
//! options-object, byte-oriented, transcoding, batch and validation
//! variants. Each sequences the options adapter, the converters and the
//! codec, and propagates the first failure.

use vstd::prelude::*;
use vstd::utf8::decode_utf8;
use vstd::utf8::encode_utf8;
use vstd::utf8::valid_utf8;
use crate::codec::bytes_to_str;
use crate::codec::json_parse;
use crate::codec::json_print;
use crate::codec::json_print_pretty;
use crate::codec::spec_json_parse;
use crate::codec::spec_json_print;
use crate::codec::spec_json_print_pretty;
use crate::codec::spec_toon_decode;
use crate::codec::spec_toon_encode;
use crate::codec::toon_decode;
use crate::codec::toon_encode;
use crate::codec::utf8_error_text;
use crate::errors::CodecErrV;
use crate::errors::ExceptionKind;
use crate::errors::ToonException;
use crate::errors::convert_toon_error;
use crate::errors::spec_convert_toon_error;
use crate::inbound::list_to_canon;
use crate::inbound::to_canon_arr;
use crate::inbound::to_canon_spec;
use crate::inbound::to_canonical;
use crate::options::Delimiter;
use crate::options::Options;
use crate::options::build_options;
use crate::options::opt_str_view;
use crate::options::spec_build_options;
use crate::outbound::from_canon_arr;
use crate::outbound::from_canon_spec;
use crate::outbound::from_canonical;
use crate::value::Canon;
use crate::value::CanonV;
use crate::value::canon_arr_view;
use crate::value::host_list_view;
use crate::value::lemma_canon_arr_view;
use crate::value::HostV;
use crate::value::HostValue;

verus! {

/// Whether an exception has the given kind and message.
pub open spec fn exc_is(e: ToonException, em: (ExceptionKind, Seq<char>)) -> bool {
    e.kind == em.0 && e.message@ == em.1
}

/// The default options: comma delimiter, strict mode off.
pub open spec fn spec_default_options() -> Options {
    Options { delimiter: Delimiter::Comma, strict: false }
}

/// The options chosen by an optional prebuilt value.
pub open spec fn spec_opts_or_default(options: Option<&Options>) -> Options {
    match options {
        Some(o) => *o,
        None => spec_default_options(),
    }
}

/// The encode pipeline: inbound conversion, then the codec; the first
/// failure wins, a conversion failure as a validation error and a codec
/// failure through the error taxonomy mapper.
pub open spec fn spec_encode_pipeline(h: HostV, o: Options) -> Result<
    Seq<char>,
    (ExceptionKind, Seq<char>),
> {
    match to_canon_spec(h) {
        Err(m) => Err((ExceptionKind::Value, m)),
        Ok(c) => match spec_toon_encode(c, o.delimiter) {
            Ok(t) => Ok(t),
            Err(ce) => Err(spec_convert_toon_error(ce)),
        },
    }
}

/// The decode pipeline: the codec, then outbound conversion; a codec
/// failure goes through the error taxonomy mapper.
pub open spec fn spec_decode_pipeline(text: Seq<char>, o: Options) -> Result<
    HostV,
    (ExceptionKind, Seq<char>),
> {
    match spec_toon_decode(text, o.delimiter, o.strict) {
        Ok(c) => Ok(from_canon_spec(c)),
        Err(ce) => Err(spec_convert_toon_error(ce)),
    }
}

fn opts_or_default(options: Option<&Options>) -> (r: Options)
    ensures
        r == spec_opts_or_default(options),
{
    match options {
        Some(o) => *o,
        None => Options { delimiter: Delimiter::Comma, strict: false },
    }
}

fn encode_core(data: &HostValue, o: Options) -> (r: Result<String, ToonException>)
    ensures
        match spec_encode_pipeline(data@, o) {
            Ok(t) => r matches Ok(s) && s@ == t,
            Err(em) => r matches Err(e) && exc_is(e, em),
        },
{
    match to_canonical(data) {
        Err(e) => Err(e),
        Ok(c) => match toon_encode(&c, o.delimiter) {
            Ok(s) => Ok(s),
            Err(ce) => Err(convert_toon_error(&ce)),
        },
    }
}

fn decode_core(text: &str, o: Options) -> (r: Result<HostValue, ToonException>)
    ensures
        match spec_decode_pipeline(text@, o) {
            Ok(h) => r matches Ok(rh) && rh@ == h,
            Err(em) => r matches Err(e) && exc_is(e, em),
        },
{
    match toon_decode(text, o.delimiter, o.strict) {
        Ok(c) => Ok(from_canonical(&c)),
        Err(ce) => Err(convert_toon_error(&ce)),
    }
}

/// Encode a host value to TOON text, with loose delimiter and strict
/// parameters validated first.
pub fn encode(data: &HostValue, delimiter: Option<&str>, strict: Option<bool>) -> (r: Result<
    String,
    ToonException,
>)
    ensures
        match spec_build_options(opt_str_view(delimiter), strict) {
            Err(m) => r matches Err(e) && e.kind == ExceptionKind::Value && e.message@ == m,
            Ok(o) => match spec_encode_pipeline(data@, o) {
                Ok(t) => r matches Ok(s) && s@ == t,
                Err(em) => r matches Err(e) && exc_is(e, em),
            },
        },
{
    match build_options(delimiter, strict) {
        Err(e) => Err(e),
        Ok(o) => encode_core(data, o),
    }
}

/// Decode TOON text to a host value, with loose delimiter and strict
/// parameters validated first.
pub fn decode(toon_str: &str, delimiter: Option<&str>, strict: Option<bool>) -> (r: Result<
    HostValue,
    ToonException,
>)
    ensures
        match spec_build_options(opt_str_view(delimiter), strict) {
            Err(m) => r matches Err(e) && e.kind == ExceptionKind::Value && e.message@ == m,
            Ok(o) => match spec_decode_pipeline(toon_str@, o) {
                Ok(h) => r matches Ok(rh) && rh@ == h,
                Err(em) => r matches Err(e) && exc_is(e, em),
            },
        },
{
    match build_options(delimiter, strict) {
        Err(e) => Err(e),
        Ok(o) => decode_core(toon_str, o),
    }
}

/// Encode a host value using a prebuilt options value (absent: defaults),
/// skipping re-validation.
pub fn encode_with_options(data: &HostValue, options: Option<&Options>) -> (r: Result<
    String,
    ToonException,
>)
    ensures
        match spec_encode_pipeline(data@, spec_opts_or_default(options)) {
            Ok(t) => r matches Ok(s) && s@ == t,
            Err(em) => r matches Err(e) && exc_is(e, em),
        },
{
    let o = opts_or_default(options);
    encode_core(data, o)
}

/// Decode TOON text using a prebuilt options value (absent: defaults),
/// skipping re-validation.
pub fn decode_with_options(toon_str: &str, options: Option<&Options>) -> (r: Result<
    HostValue,
    ToonException,
>)
    ensures
        match spec_decode_pipeline(toon_str@, spec_opts_or_default(options)) {
            Ok(h) => r matches Ok(rh) && rh@ == h,
            Err(em) => r matches Err(e) && exc_is(e, em),
        },
{
    let o = opts_or_default(options);
    decode_core(toon_str, o)
}

/// Encode a host value to TOON text as UTF-8 bytes; otherwise identical to
/// the text variant.
pub fn encode_bytes(data: &HostValue, options: Option<&Options>) -> (r: Result<
    Vec<u8>,
    ToonException,
>)
    ensures
        match spec_encode_pipeline(data@, spec_opts_or_default(options)) {
            Ok(t) => r matches Ok(b) && b@ == encode_utf8(t),
            Err(em) => r matches Err(e) && exc_is(e, em),
        },
{
    let o = opts_or_default(options);
    match encode_core(data, o) {
        Err(e) => Err(e),
        Ok(s) => Ok(s.as_str().as_bytes_vec()),
    }
}

/// Decode TOON text given as UTF-8 bytes; bytes that are not valid UTF-8
/// are rejected with the I/O error kind, otherwise identical to the text
/// variant.
pub fn decode_bytes(toon_bytes: &[u8], options: Option<&Options>) -> (r: Result<
    HostValue,
    ToonException,
>)
    ensures
        valid_utf8(toon_bytes@) ==> match spec_decode_pipeline(
            decode_utf8(toon_bytes@),
            spec_opts_or_default(options),
        ) {
            Ok(h) => r matches Ok(rh) && rh@ == h,
            Err(em) => r matches Err(e) && exc_is(e, em),
        },
        !valid_utf8(toon_bytes@) ==> (r matches Err(e) && e.kind == ExceptionKind::ToonIo
            && e.message@ == utf8_error_text(toon_bytes@)),
{
    let o = opts_or_default(options);
    match bytes_to_str(toon_bytes) {
        Err(m) => Err(ToonException { kind: ExceptionKind::ToonIo, message: m }),
        Ok(text) => decode_core(text, o),
    }
}

/// Encode a host value with default options; an alias for `encode` without
/// parameters.
pub fn dumps(data: &HostValue) -> (r: Result<String, ToonException>)
    ensures
        match spec_encode_pipeline(data@, spec_default_options()) {
            Ok(t) => r matches Ok(s) && s@ == t,
            Err(em) => r matches Err(e) && exc_is(e, em),
        },
{
    encode(data, None, None)
}

/// Decode TOON text with default options; an alias for `decode` without
/// parameters.
pub fn loads(toon_str: &str) -> (r: Result<HostValue, ToonException>)
    ensures
        match spec_decode_pipeline(toon_str@, spec_default_options()) {
            Ok(h) => r matches Ok(rh) && rh@ == h,
            Err(em) => r matches Err(e) && exc_is(e, em),
        },
{
    decode(toon_str, None, None)
}

/// Convert JSON text directly to TOON text. Malformed JSON is rejected as
/// the base error kind, prefixed to name the transcoding stage.
pub fn json_to_toon(json_str: &str, delimiter: Option<&str>, strict: Option<bool>) -> (r: Result<
    String,
    ToonException,
>)
    ensures
        match spec_build_options(opt_str_view(delimiter), strict) {
            Err(m) => r matches Err(e) && e.kind == ExceptionKind::Value && e.message@ == m,
            Ok(o) => match spec_json_parse(json_str@) {
                Err(d) => r matches Err(e) && e.kind == ExceptionKind::Toon && e.message@
                    == "Invalid JSON: "@ + d,
                Ok(c) => match spec_toon_encode(c, o.delimiter) {
                    Ok(t) => r matches Ok(s) && s@ == t,
                    Err(ce) => r matches Err(e) && exc_is(e, spec_convert_toon_error(ce)),
                },
            },
        },
{
    let o = match build_options(delimiter, strict) {
        Err(e) => {
            return Err(e);
        },
        Ok(o) => o,
    };
    match json_parse(json_str) {
        Err(d) => {
            let mut m = String::from_str("Invalid JSON: ");
            m.append(d.as_str());
            Err(ToonException { kind: ExceptionKind::Toon, message: m })
        },
        Ok(c) => match toon_encode(&c, o.delimiter) {
            Ok(s) => Ok(s),
            Err(ce) => Err(convert_toon_error(&ce)),
        },
    }
}

/// Convert TOON text directly to JSON text, optionally pretty-printed.
/// Decoding uses the default delimiter; a failure to re-emit JSON is the
/// base error kind, prefixed to name the stage.
pub fn toon_to_json(toon_str: &str, pretty: bool, strict: Option<bool>) -> (r: Result<
    String,
    ToonException,
>)
    ensures
        ({
            let o = spec_build_options(None, strict)->Ok_0;
            match spec_toon_decode(toon_str@, o.delimiter, o.strict) {
                Err(ce) => r matches Err(e) && exc_is(e, spec_convert_toon_error(ce)),
                Ok(c) => match (if pretty {
                    spec_json_print_pretty(c)
                } else {
                    spec_json_print(c)
                }) {
                    Ok(t) => r matches Ok(s) && s@ == t,
                    Err(d) => r matches Err(e) && e.kind == ExceptionKind::Toon && e.message@
                        == "JSON encoding error: "@ + d,
                },
            }
        }),
{
    let o = match build_options(None, strict) {
        Err(e) => {
            return Err(e);
        },
        Ok(o) => o,
    };
    match toon_decode(toon_str, o.delimiter, o.strict) {
        Err(ce) => Err(convert_toon_error(&ce)),
        Ok(c) => {
            let printed = if pretty {
                json_print_pretty(&c)
            } else {
                json_print(&c)
            };
            match printed {
                Ok(s) => Ok(s),
                Err(d) => {
                    let mut m = String::from_str("JSON encoding error: ");
                    m.append(d.as_str());
                    Err(ToonException { kind: ExceptionKind::Toon, message: m })
                },
            }
        },
    }
}

/// Attempt the full encode path and report only whether it succeeds: any
/// failure, of conversion or of the codec, is reported as false and never
/// raised.
pub fn validate(data: &HostValue, options: Option<&Options>) -> (r: bool)
    ensures
        r == spec_encode_pipeline(data@, spec_opts_or_default(options)) is Ok,
{
    let o = opts_or_default(options);
    match to_canonical(data) {
        Err(_) => false,
        Ok(c) => match toon_encode(&c, o.delimiter) {
            Ok(_) => true,
            Err(_) => false,
        },
    }
}

} // verus!

verus! {

/// The view of a sequence of strings.
pub open spec fn strings_view(s: Seq<String>) -> Seq<Seq<char>>
    decreases s,
{
    if s.len() == 0 {
        Seq::empty()
    } else {
        strings_view(s.drop_last()).push(s.last()@)
    }
}

/// Each element of the viewed sequence is the view of the element.
pub proof fn lemma_strings_view(s: Seq<String>)
    ensures
        strings_view(s).len() == s.len(),
        forall|i: int| 0 <= i < s.len() ==> strings_view(s)[i] == (#[trigger] s[i])@,
    decreases s,
{
    if s.len() > 0 {
        lemma_strings_view(s.drop_last());
        assert forall|i: int| 0 <= i < s.len() implies strings_view(s)[i] == (#[trigger] s[i])@ by {
            if i < s.len() - 1 {
                assert(s.drop_last()[i] == s[i]);
                assert(strings_view(s)[i] == strings_view(s.drop_last())[i]);
            } else {
                assert(s[i] == s.last());
            }
        }
    }
}

/// The texts the codec encodes a sequence of canonical values to, in order,
/// or its first failure.
pub open spec fn spec_encode_all(cs: Seq<CanonV>, d: Delimiter) -> Result<
    Seq<Seq<char>>,
    CodecErrV,
>
    decreases cs,
{
    if cs.len() == 0 {
        Ok(Seq::empty())
    } else {
        match spec_encode_all(cs.drop_last(), d) {
            Err(ce) => Err(ce),
            Ok(pre) => match spec_toon_encode(cs.last(), d) {
                Err(ce) => Err(ce),
                Ok(t) => Ok(pre.push(t)),
            },
        }
    }
}

/// The canonical values the codec decodes a sequence of texts to, in order,
/// or its first failure.
pub open spec fn spec_decode_all(ts: Seq<Seq<char>>, d: Delimiter, strict: bool) -> Result<
    Seq<CanonV>,
    CodecErrV,
>
    decreases ts,
{
    if ts.len() == 0 {
        Ok(Seq::empty())
    } else {
        match spec_decode_all(ts.drop_last(), d, strict) {
            Err(ce) => Err(ce),
            Ok(pre) => match spec_toon_decode(ts.last(), d, strict) {
                Err(ce) => Err(ce),
                Ok(c) => Ok(pre.push(c)),
            },
        }
    }
}

/// The batch encode pipeline, in two cleanly separated phases: all inputs
/// are converted first, then all canonical values are encoded; the first
/// failure of either phase fails the whole batch.
pub open spec fn spec_encode_batch(hs: Seq<HostV>, o: Options) -> Result<
    Seq<Seq<char>>,
    (ExceptionKind, Seq<char>),
> {
    match to_canon_arr(hs) {
        Err(m) => Err((ExceptionKind::Value, m)),
        Ok(cs) => match spec_encode_all(cs, o.delimiter) {
            Ok(ts) => Ok(ts),
            Err(ce) => Err(spec_convert_toon_error(ce)),
        },
    }
}

/// The batch decode pipeline, in two cleanly separated phases: all texts
/// are decoded first, then all canonical values are converted out; a decode
/// failure fails the whole batch.
pub open spec fn spec_decode_batch(ts: Seq<Seq<char>>, o: Options) -> Result<
    Seq<HostV>,
    (ExceptionKind, Seq<char>),
> {
    match spec_decode_all(ts, o.delimiter, o.strict) {
        Err(ce) => Err(spec_convert_toon_error(ce)),
        Ok(cs) => Ok(from_canon_arr(cs)),
    }
}

proof fn lemma_encode_all_first_err(cs: Seq<CanonV>, j: int, ce: CodecErrV, d: Delimiter)
    requires
        0 <= j < cs.len(),
        spec_encode_all(cs.take(j), d) is Ok,
        spec_toon_encode(cs[j], d) == Result::<Seq<char>, CodecErrV>::Err(ce),
    ensures
        spec_encode_all(cs, d) == Result::<Seq<Seq<char>>, CodecErrV>::Err(ce),
    decreases cs,
{
    if j == cs.len() - 1 {
        assert(cs.take(j) =~= cs.drop_last());
        assert(cs.last() == cs[j]);
    } else {
        assert(cs.drop_last().take(j) =~= cs.take(j));
        assert(cs.drop_last()[j] == cs[j]);
        lemma_encode_all_first_err(cs.drop_last(), j, ce, d);
    }
}

proof fn lemma_decode_all_first_err(ts: Seq<Seq<char>>, j: int, ce: CodecErrV, d: Delimiter, strict: bool)
    requires
        0 <= j < ts.len(),
        spec_decode_all(ts.take(j), d, strict) is Ok,
        spec_toon_decode(ts[j], d, strict) == Result::<CanonV, CodecErrV>::Err(ce),
    ensures
        spec_decode_all(ts, d, strict) == Result::<Seq<CanonV>, CodecErrV>::Err(ce),
    decreases ts,
{
    if j == ts.len() - 1 {
        assert(ts.take(j) =~= ts.drop_last());
        assert(ts.last() == ts[j]);
    } else {
        assert(ts.drop_last().take(j) =~= ts.take(j));
        assert(ts.drop_last()[j] == ts[j]);
        lemma_decode_all_first_err(ts.drop_last(), j, ce, d, strict);
    }
}

/// Encode a sequence of host values to TOON texts, in input order. All
/// inputs are converted before any codec work (so the host lock need only
/// be held for the conversion phase); a failure on any element fails the
/// whole batch.
#[verifier::loop_isolation(false)]
pub fn encode_batch(
    objects: &Vec<HostValue>,
    delimiter: Option<&str>,
    strict: Option<bool>,
) -> (r: Result<Vec<String>, ToonException>)
    ensures
        match spec_build_options(opt_str_view(delimiter), strict) {
            Err(m) => r matches Err(e) && e.kind == ExceptionKind::Value && e.message@ == m,
            Ok(o) => match spec_encode_batch(host_list_view(objects@), o) {
                Ok(ts) => r matches Ok(out) && strings_view(out@) == ts,
                Err(em) => r matches Err(e) && exc_is(e, em),
            },
        },
{
    let o = match build_options(delimiter, strict) {
        Err(e) => {
            return Err(e);
        },
        Ok(o) => o,
    };
    let canons = match list_to_canon(objects) {
        Err(e) => {
            return Err(e);
        },
        Ok(cs) => cs,
    };
    let ghost cv = canon_arr_view(canons@);
    proof {
        lemma_canon_arr_view(canons@);
    }
    let mut results: Vec<String> = Vec::new();
    let mut j: usize = 0;
    while j < canons.len()
        invariant
            j <= canons@.len(),
            results@.len() == j,
            spec_encode_all(cv.take(j as int), o.delimiter) == Ok::<Seq<Seq<char>>, CodecErrV>(
                strings_view(results@),
            ),
        decreases canons@.len() - j,
    {
        match toon_encode(&canons[j], o.delimiter) {
            Ok(s) => {
                proof {
                    assert(cv.take(j + 1).drop_last() =~= cv.take(j as int));
                    assert(cv.take(j + 1).last() == cv[j as int]);
                    assert(results@.push(s).drop_last() =~= results@);
                }
                results.push(s);
            },
            Err(ce) => {
                proof {
                    lemma_encode_all_first_err(cv, j as int, ce@, o.delimiter);
                }
                return Err(convert_toon_error(&ce));
            },
        }
        j = j + 1;
    }
    proof {
        assert(cv.take(canons@.len() as int) =~= cv);
    }
    Ok(results)
}

/// Decode a sequence of TOON texts to host values, in input order. All
/// texts are decoded before any host value is built (so the host lock need
/// only be held for the outbound phase); a failure on any element fails the
/// whole batch.
#[verifier::loop_isolation(false)]
pub fn decode_batch(
    toon_strings: &Vec<String>,
    delimiter: Option<&str>,
    strict: Option<bool>,
) -> (r: Result<Vec<HostValue>, ToonException>)
    ensures
        match spec_build_options(opt_str_view(delimiter), strict) {
            Err(m) => r matches Err(e) && e.kind == ExceptionKind::Value && e.message@ == m,
            Ok(o) => match spec_decode_batch(strings_view(toon_strings@), o) {
                Ok(hs) => r matches Ok(out) && host_list_view(out@) == hs,
                Err(em) => r matches Err(e) && exc_is(e, em),
            },
        },
{
    let o = match build_options(delimiter, strict) {
        Err(e) => {
            return Err(e);
        },
        Ok(o) => o,
    };
    let ghost tv = strings_view(toon_strings@);
    proof {
        lemma_strings_view(toon_strings@);
    }
    let mut canons: Vec<Canon> = Vec::new();
    let mut j: usize = 0;
    while j < toon_strings.len()
        invariant
            j <= toon_strings@.len(),
            canons@.len() == j,
            spec_decode_all(tv.take(j as int), o.delimiter, o.strict) == Ok::<
                Seq<CanonV>,
                CodecErrV,
            >(canon_arr_view(canons@)),
        decreases toon_strings@.len() - j,
    {
        match toon_decode(toon_strings[j].as_str(), o.delimiter, o.strict) {
            Ok(c) => {
                proof {
                    assert(tv.take(j + 1).drop_last() =~= tv.take(j as int));
                    assert(tv.take(j + 1).last() == tv[j as int]);
                    assert(canons@.push(c).drop_last() =~= canons@);
                }
                canons.push(c);
            },
            Err(ce) => {
                proof {
                    lemma_decode_all_first_err(tv, j as int, ce@, o.delimiter, o.strict);
                }
                return Err(convert_toon_error(&ce));
            },
        }
        j = j + 1;
    }
    proof {
        assert(tv.take(toon_strings@.len() as int) =~= tv);
        lemma_canon_arr_view(canons@);
    }
    let ghost cv = canon_arr_view(canons@);
    let mut results: Vec<HostValue> = Vec::new();
    let mut i: usize = 0;
    while i < canons.len()
        invariant
            i <= canons@.len(),
            results@.len() == i,
            host_list_view(results@) == from_canon_arr(cv.take(i as int)),
        decreases canons@.len() - i,
    {
        let h = from_canonical(&canons[i]);
        proof {
            assert(cv.take(i + 1).drop_last() =~= cv.take(i as int));
            assert(cv.take(i + 1).last() == cv[i as int]);
            assert(results@.push(h).drop_last() =~= results@);
        }
        results.push(h);
        i = i + 1;
    }
    proof {
        assert(cv.take(canons@.len() as int) =~= cv);
    }
    Ok(results)
}

} // verus!
