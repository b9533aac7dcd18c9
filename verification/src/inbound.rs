//! The inbound converter: host values to canonical values, classified by
//! capability in a fixed priority order. Conversion fails with a validation
//! message on a non-finite float, an integer outside the codec's numeric
//! range, a mapping key that cannot be made a string, or a value exposing
//! none of the recognized capabilities.

use vstd::prelude::*;
use crate::errors::ExceptionKind;
use crate::errors::ToonException;
use crate::numtext::str_eq;
use crate::value::Canon;
use crate::value::CanonV;
use crate::value::HostFloat;
use crate::value::HostFloatV;
use crate::value::HostInt;
use crate::value::HostIntV;
use crate::value::HostKey;
use crate::value::HostKeyV;
use crate::value::HostV;
use crate::value::HostValue;
use crate::value::canon_arr_view;
use crate::value::canon_obj_view;
use crate::value::canon_view;
use crate::value::host_dict_view;
use crate::value::host_list_view;
use crate::value::lemma_canon_obj_view;
use crate::value::lemma_host_dict_view;
use crate::value::lemma_host_list_view;

verus! {

/// The message rejecting a non-finite float.
pub open spec fn msg_nonfinite() -> Seq<char> {
    "Invalid float value (NaN or Infinity)"@
}

/// The message rejecting an integer outside the 64-bit ranges.
pub open spec fn msg_int_range() -> Seq<char> {
    "int too large to convert"@
}

/// The message rejecting a value of an unsupported runtime type.
pub open spec fn msg_unsupported(kind_name: Seq<char>) -> Seq<char> {
    "Cannot convert type '"@ + kind_name + "' to TOON format"@
}

/// The canonical value for a host integer: signed 64-bit extraction first,
/// the unsigned variant only for values above the signed range, and a
/// rejection beyond the unsigned range (in either direction).
pub open spec fn int_to_canon(v: HostIntV) -> Result<CanonV, Seq<char>> {
    match v {
        HostIntV::Exact(i) => if i64::MIN <= i <= i64::MAX {
            Ok(CanonV::Int(i))
        } else if i64::MAX < i <= u64::MAX {
            Ok(CanonV::Uint(i))
        } else {
            Err(msg_int_range())
        },
        HostIntV::Big => Err(msg_int_range()),
    }
}

/// The string a mapping key coerces to, or the rejection message naming the
/// key's runtime type.
pub open spec fn key_string(k: HostKeyV) -> Result<Seq<char>, Seq<char>> {
    match k {
        HostKeyV::Str(s) => Ok(s),
        HostKeyV::Coerced(s) => Ok(s),
        HostKeyV::Uncoercible(t) => Err(msg_unsupported(t)),
    }
}

/// The position of the first entry with the given key, or -1.
pub open spec fn find_key(m: Seq<(Seq<char>, CanonV)>, k: Seq<char>) -> int
    decreases m,
{
    if m.len() == 0 {
        -1
    } else if m[0].0 == k {
        0
    } else if find_key(m.drop_first(), k) < 0 {
        -1
    } else {
        find_key(m.drop_first(), k) + 1
    }
}

/// Insert a key-value pair into an object: a fresh key is appended, an
/// existing key keeps its position and takes the new value.
pub open spec fn obj_upsert(
    m: Seq<(Seq<char>, CanonV)>,
    k: Seq<char>,
    v: CanonV,
) -> Seq<(Seq<char>, CanonV)> {
    if find_key(m, k) < 0 {
        m.push((k, v))
    } else {
        m.update(find_key(m, k), (k, v))
    }
}

/// The canonical value of a host value, or the first validation message.
pub open spec fn to_canon_spec(h: HostV) -> Result<CanonV, Seq<char>>
    decreases h,
{
    match h {
        HostV::Null => Ok(CanonV::Null),
        HostV::Bool(b) => Ok(CanonV::Bool(b)),
        HostV::Int(i) => int_to_canon(i),
        HostV::Float(f) => match f {
            HostFloatV::Finite(t) => Ok(CanonV::Float(t)),
            HostFloatV::Nan => Err(msg_nonfinite()),
            HostFloatV::Infinity => Err(msg_nonfinite()),
            HostFloatV::NegInfinity => Err(msg_nonfinite()),
        },
        HostV::Str(s) => Ok(CanonV::Str(s)),
        HostV::List(items) => match to_canon_arr(items) {
            Ok(cs) => Ok(CanonV::Arr(cs)),
            Err(m) => Err(m),
        },
        HostV::Tuple(items) => match to_canon_arr(items) {
            Ok(cs) => Ok(CanonV::Arr(cs)),
            Err(m) => Err(m),
        },
        HostV::Dict(entries) => match to_canon_dict(entries) {
            Ok(es) => Ok(CanonV::Obj(es)),
            Err(m) => Err(m),
        },
        HostV::Other(t) => Err(msg_unsupported(t)),
    }
}

/// The canonical elements of a host sequence, in order, or the first
/// validation message.
pub open spec fn to_canon_arr(s: Seq<HostV>) -> Result<Seq<CanonV>, Seq<char>>
    decreases s,
{
    if s.len() == 0 {
        Ok(Seq::empty())
    } else {
        match to_canon_arr(s.drop_last()) {
            Err(m) => Err(m),
            Ok(pre) => match to_canon_spec(s.last()) {
                Err(m) => Err(m),
                Ok(c) => Ok(pre.push(c)),
            },
        }
    }
}

/// The validation message of one mapping entry, if any: the key is coerced
/// first, then the value converted.
pub open spec fn entry_err(e: (HostKeyV, HostV)) -> Option<Seq<char>> {
    match key_string(e.0) {
        Err(m) => Some(m),
        Ok(_) => match to_canon_spec(e.1) {
            Err(m) => Some(m),
            Ok(_) => None,
        },
    }
}

/// The canonical object of a host mapping: entries in order, each key
/// coerced to a string and each value converted, a repeated key keeping its
/// first position with the last value; or the first validation message.
pub open spec fn to_canon_dict(s: Seq<(HostKeyV, HostV)>) -> Result<
    Seq<(Seq<char>, CanonV)>,
    Seq<char>,
>
    decreases s,
{
    if s.len() == 0 {
        Ok(Seq::empty())
    } else {
        match to_canon_dict(s.drop_last()) {
            Err(m) => Err(m),
            Ok(pre) => match key_string(s.last().0) {
                Err(m) => Err(m),
                Ok(k) => match to_canon_spec(s.last().1) {
                    Err(m) => Err(m),
                    Ok(c) => Ok(obj_upsert(pre, k, c)),
                },
            },
        }
    }
}

/// Where `find_key` points: -1 exactly when the key is absent, otherwise
/// the first entry holding the key.
pub proof fn lemma_find_key(m: Seq<(Seq<char>, CanonV)>, k: Seq<char>)
    ensures
        (find_key(m, k) == -1) <==> (forall|i: int| 0 <= i < m.len() ==> (#[trigger] m[i].0) != k),
        find_key(m, k) != -1 ==> 0 <= find_key(m, k) < m.len() && m[find_key(m, k)].0 == k
            && (forall|i: int| 0 <= i < find_key(m, k) ==> (#[trigger] m[i].0) != k),
    decreases m,
{
    if m.len() > 0 && m[0].0 != k {
        lemma_find_key(m.drop_first(), k);
        let d = m.drop_first();
        let r = find_key(d, k);
        if r == -1 {
            assert(find_key(m, k) == -1);
            assert forall|i: int| 0 <= i < m.len() implies (#[trigger] m[i].0) != k by {
                if i > 0 {
                    assert(d[i - 1] == m[i]);
                }
            }
        } else {
            assert(find_key(m, k) == r + 1);
            assert(m[r + 1] == d[r]);
            assert forall|i: int| 0 <= i < r + 1 implies (#[trigger] m[i].0) != k by {
                if i > 0 {
                    assert(d[i - 1] == m[i]);
                }
            }
        }
    }
}

/// A sequence whose prefix converts and whose next element is the first to
/// fail converts to that element's message.
pub proof fn lemma_to_canon_arr_first_err(s: Seq<HostV>, j: int, m: Seq<char>)
    requires
        0 <= j < s.len(),
        to_canon_arr(s.take(j)) is Ok,
        to_canon_spec(s[j]) == Result::<CanonV, Seq<char>>::Err(m),
    ensures
        to_canon_arr(s) == Result::<Seq<CanonV>, Seq<char>>::Err(m),
    decreases s,
{
    if j == s.len() - 1 {
        assert(s.take(j) =~= s.drop_last());
        assert(s.last() == s[j]);
    } else {
        assert(s.drop_last().take(j) =~= s.take(j));
        assert(s.drop_last()[j] == s[j]);
        lemma_to_canon_arr_first_err(s.drop_last(), j, m);
    }
}

/// A mapping whose prefix converts and whose next entry is the first to
/// fail converts to that entry's message.
pub proof fn lemma_to_canon_dict_first_err(s: Seq<(HostKeyV, HostV)>, j: int, m: Seq<char>)
    requires
        0 <= j < s.len(),
        to_canon_dict(s.take(j)) is Ok,
        entry_err(s[j]) == Some(m),
    ensures
        to_canon_dict(s) == Result::<Seq<(Seq<char>, CanonV)>, Seq<char>>::Err(m),
    decreases s,
{
    if j == s.len() - 1 {
        assert(s.take(j) =~= s.drop_last());
        assert(s.last() == s[j]);
    } else {
        assert(s.drop_last().take(j) =~= s.take(j));
        assert(s.drop_last()[j] == s[j]);
        lemma_to_canon_dict_first_err(s.drop_last(), j, m);
    }
}

} // verus!

verus! {

fn nonfinite_error() -> (r: ToonException)
    ensures
        r.kind == ExceptionKind::Value,
        r.message@ == msg_nonfinite(),
{
    ToonException {
        kind: ExceptionKind::Value,
        message: String::from_str("Invalid float value (NaN or Infinity)"),
    }
}

fn int_range_error() -> (r: ToonException)
    ensures
        r.kind == ExceptionKind::Value,
        r.message@ == msg_int_range(),
{
    ToonException { kind: ExceptionKind::Value, message: String::from_str("int too large to convert") }
}

fn unsupported_error(kind_name: &str) -> (r: ToonException)
    ensures
        r.kind == ExceptionKind::Value,
        r.message@ == msg_unsupported(kind_name@),
{
    let mut m = String::from_str("Cannot convert type '");
    m.append(kind_name);
    m.append("' to TOON format");
    ToonException { kind: ExceptionKind::Value, message: m }
}

/// Coerce a mapping key to its string.
fn key_to_string(k: &HostKey) -> (r: Result<String, ToonException>)
    ensures
        match key_string(k@) {
            Ok(s) => r matches Ok(rs) && rs@ == s,
            Err(m) => r matches Err(e) && e.kind == ExceptionKind::Value && e.message@ == m,
        },
{
    match k {
        HostKey::Str(s) => Ok(s.clone()),
        HostKey::Coerced(s) => Ok(s.clone()),
        HostKey::Uncoercible(t) => Err(unsupported_error(t.as_str())),
    }
}

/// Insert a key-value pair into the object being built, replacing the value
/// in place if the key is already present.
#[verifier::loop_isolation(false)]
fn obj_upsert_exec(out: &mut Vec<(String, Canon)>, k: String, c: Canon)
    ensures
        canon_obj_view(final(out)@) == obj_upsert(canon_obj_view(old(out)@), k@, c@),
{
    let ghost m = canon_obj_view(old(out)@);
    proof {
        lemma_canon_obj_view(old(out)@);
        lemma_find_key(m, k@);
    }
    let mut i: usize = 0;
    while i < out.len()
        invariant
            i <= out@.len(),
            out@ == old(out)@,
            forall|idx: int| 0 <= idx < i ==> (#[trigger] m[idx].0) != k@,
        decreases out@.len() - i,
    {
        if str_eq(out[i].0.as_str(), k.as_str()) {
            proof {
                assert(m[i as int].0 == k@);
                assert(find_key(m, k@) == i as int);
            }
            let ghost before = out@;
            let ghost k_view = k@;
            let ghost c_view = c@;
            out.set(i, (k, c));
            proof {
                let s2 = before.update(i as int, (k, c));
                lemma_canon_obj_view(s2);
                assert forall|idx: int| 0 <= idx < s2.len() implies canon_obj_view(s2)[idx]
                    == m.update(i as int, (k_view, c_view))[idx] by {
                    assert(canon_obj_view(s2)[idx] == (s2[idx].0@, canon_view(s2[idx].1)));
                    if idx != i {
                        assert(s2[idx] == before[idx]);
                        assert(m[idx] == (before[idx].0@, canon_view(before[idx].1)));
                    }
                }
                assert(canon_obj_view(s2) =~= m.update(i as int, (k_view, c_view)));
            }
            return;
        }
        i = i + 1;
    }
    proof {
        assert(find_key(m, k@) == -1);
        assert(out@.push((k, c)).drop_last() =~= out@);
    }
    out.push((k, c));
}

/// Convert the elements of a host sequence, in order, stopping at the first
/// failure.
#[verifier::loop_isolation(false)]
pub(crate) fn list_to_canon(items: &Vec<HostValue>) -> (r: Result<Vec<Canon>, ToonException>)
    ensures
        match to_canon_arr(host_list_view(items@)) {
            Ok(cs) => r matches Ok(out) && canon_arr_view(out@) == cs,
            Err(m) => r matches Err(e) && e.kind == ExceptionKind::Value && e.message@ == m,
        },
    decreases items@,
{
    let ghost hv = host_list_view(items@);
    proof {
        lemma_host_list_view(items@);
    }
    let mut out: Vec<Canon> = Vec::new();
    let mut j: usize = 0;
    while j < items.len()
        invariant
            j <= items@.len(),
            out@.len() == j,
            to_canon_arr(hv.take(j as int)) == Ok::<Seq<CanonV>, Seq<char>>(canon_arr_view(out@)),
        decreases items@.len() - j,
    {
        match to_canonical(&items[j]) {
            Ok(c) => {
                proof {
                    assert(hv.take(j + 1).drop_last() =~= hv.take(j as int));
                    assert(hv.take(j + 1).last() == hv[j as int]);
                    assert(out@.push(c).drop_last() =~= out@);
                }
                out.push(c);
            },
            Err(e) => {
                proof {
                    lemma_to_canon_arr_first_err(hv, j as int, e.message@);
                }
                return Err(e);
            },
        }
        j = j + 1;
    }
    proof {
        assert(hv.take(items@.len() as int) =~= hv);
    }
    Ok(out)
}

/// Convert the entries of a host mapping, in order, coercing each key and
/// converting each value, stopping at the first failure.
#[verifier::loop_isolation(false)]
fn dict_to_canon(entries: &Vec<(HostKey, HostValue)>) -> (r: Result<
    Vec<(String, Canon)>,
    ToonException,
>)
    ensures
        match to_canon_dict(host_dict_view(entries@)) {
            Ok(es) => r matches Ok(out) && canon_obj_view(out@) == es,
            Err(m) => r matches Err(e) && e.kind == ExceptionKind::Value && e.message@ == m,
        },
    decreases entries@,
{
    let ghost dv = host_dict_view(entries@);
    proof {
        lemma_host_dict_view(entries@);
    }
    let mut out: Vec<(String, Canon)> = Vec::new();
    let mut j: usize = 0;
    while j < entries.len()
        invariant
            j <= entries@.len(),
            to_canon_dict(dv.take(j as int)) == Ok::<Seq<(Seq<char>, CanonV)>, Seq<char>>(
                canon_obj_view(out@),
            ),
        decreases entries@.len() - j,
    {
        let e = &entries[j];
        let k: String = match key_to_string(&e.0) {
            Ok(k) => k,
            Err(ex) => {
                proof {
                    lemma_to_canon_dict_first_err(dv, j as int, ex.message@);
                }
                return Err(ex);
            },
        };
        let c: Canon = match to_canonical(&e.1) {
            Ok(c) => c,
            Err(ex) => {
                proof {
                    lemma_to_canon_dict_first_err(dv, j as int, ex.message@);
                }
                return Err(ex);
            },
        };
        proof {
            assert(dv.take(j + 1).drop_last() =~= dv.take(j as int));
            assert(dv.take(j + 1).last() == dv[j as int]);
        }
        obj_upsert_exec(&mut out, k, c);
        j = j + 1;
    }
    proof {
        assert(dv.take(entries@.len() as int) =~= dv);
    }
    Ok(out)
}

/// Convert a host value to its canonical value, classifying by capability
/// in priority order; a value the canonical model cannot hold is rejected
/// with a validation error.
pub fn to_canonical(h: &HostValue) -> (r: Result<Canon, ToonException>)
    ensures
        match to_canon_spec(h@) {
            Ok(c) => r matches Ok(rc) && rc@ == c,
            Err(m) => r matches Err(e) && e.kind == ExceptionKind::Value && e.message@ == m,
        },
    decreases *h,
{
    match h {
        HostValue::Null => Ok(Canon::Null),
        HostValue::Bool(b) => Ok(Canon::Bool(*b)),
        HostValue::Int(iv) => match iv {
            HostInt::Exact(v) => {
                let v = *v;
                if (i64::MIN as i128) <= v && v <= (i64::MAX as i128) {
                    Ok(Canon::Int(v as i64))
                } else if (i64::MAX as i128) < v && v <= (u64::MAX as i128) {
                    Ok(Canon::Uint(v as u64))
                } else {
                    Err(int_range_error())
                }
            },
            HostInt::Big => Err(int_range_error()),
        },
        HostValue::Float(f) => match f {
            HostFloat::Finite(t) => Ok(Canon::Float(t.clone())),
            HostFloat::Nan => Err(nonfinite_error()),
            HostFloat::Infinity => Err(nonfinite_error()),
            HostFloat::NegInfinity => Err(nonfinite_error()),
        },
        HostValue::Str(s) => Ok(Canon::Str(s.clone())),
        HostValue::List(items) => match list_to_canon(items) {
            Ok(cs) => Ok(Canon::Arr(cs)),
            Err(e) => Err(e),
        },
        HostValue::Tuple(items) => match list_to_canon(items) {
            Ok(cs) => Ok(Canon::Arr(cs)),
            Err(e) => Err(e),
        },
        HostValue::Dict(entries) => match dict_to_canon(entries) {
            Ok(es) => Ok(Canon::Obj(es)),
            Err(e) => Err(e),
        },
        HostValue::Other(t) => Err(unsupported_error(t.as_str())),
    }
}

} // verus!
