//! The canonical value model shared with the codec, and the model of the
//! host runtime's dynamic values.

use vstd::prelude::*;

verus! {

/// A canonical, format-agnostic value: the interchange representation
/// between the host bridge and the codec. Floats are carried as the decimal
/// text of a finite floating-point value, so a non-finite value can never
/// reach the codec.
#[derive(Debug, PartialEq)]
pub enum Canon {
    Null,
    Bool(bool),
    Int(i64),
    /// Used only for values above the signed 64-bit range.
    Uint(u64),
    /// Decimal text of a finite float.
    Float(String),
    Str(String),
    Arr(Vec<Canon>),
    /// String-keyed entries in insertion order; keys are unique.
    Obj(Vec<(String, Canon)>),
}

/// The mathematical shape of a canonical value.
pub enum CanonV {
    Null,
    Bool(bool),
    Int(int),
    Uint(int),
    Float(Seq<char>),
    Str(Seq<char>),
    Arr(Seq<CanonV>),
    Obj(Seq<(Seq<char>, CanonV)>),
}

pub open spec fn canon_view(c: Canon) -> CanonV
    decreases c,
{
    match c {
        Canon::Null => CanonV::Null,
        Canon::Bool(b) => CanonV::Bool(b),
        Canon::Int(i) => CanonV::Int(i as int),
        Canon::Uint(u) => CanonV::Uint(u as int),
        Canon::Float(t) => CanonV::Float(t@),
        Canon::Str(s) => CanonV::Str(s@),
        Canon::Arr(items) => CanonV::Arr(canon_arr_view(items@)),
        Canon::Obj(entries) => CanonV::Obj(canon_obj_view(entries@)),
    }
}

pub open spec fn canon_arr_view(s: Seq<Canon>) -> Seq<CanonV>
    decreases s,
{
    if s.len() == 0 {
        Seq::empty()
    } else {
        canon_arr_view(s.drop_last()).push(canon_view(s.last()))
    }
}

pub open spec fn canon_obj_view(s: Seq<(String, Canon)>) -> Seq<(Seq<char>, CanonV)>
    decreases s,
{
    if s.len() == 0 {
        Seq::empty()
    } else {
        canon_obj_view(s.drop_last()).push((s.last().0@, canon_view(s.last().1)))
    }
}

impl View for Canon {
    type V = CanonV;

    open spec fn view(&self) -> CanonV {
        canon_view(*self)
    }
}

/// Each element of the viewed sequence is the view of the element.
pub proof fn lemma_canon_arr_view(s: Seq<Canon>)
    ensures
        canon_arr_view(s).len() == s.len(),
        forall|i: int| 0 <= i < s.len() ==> canon_arr_view(s)[i] == canon_view(#[trigger] s[i]),
    decreases s,
{
    if s.len() > 0 {
        lemma_canon_arr_view(s.drop_last());
        assert forall|i: int| 0 <= i < s.len() implies canon_arr_view(s)[i] == canon_view(
            #[trigger] s[i],
        ) by {
            if i < s.len() - 1 {
                assert(s.drop_last()[i] == s[i]);
                assert(canon_arr_view(s)[i] == canon_arr_view(s.drop_last())[i]);
            } else {
                assert(s[i] == s.last());
            }
        }
    }
}

/// Each entry of the viewed entry sequence is the viewed key and value.
pub proof fn lemma_canon_obj_view(s: Seq<(String, Canon)>)
    ensures
        canon_obj_view(s).len() == s.len(),
        forall|i: int| 0 <= i < s.len() ==> canon_obj_view(s)[i] == (
            #[trigger] s[i].0@,
            canon_view(s[i].1),
        ),
    decreases s,
{
    if s.len() > 0 {
        lemma_canon_obj_view(s.drop_last());
        assert forall|i: int| 0 <= i < s.len() implies canon_obj_view(s)[i] == (
            #[trigger] s[i].0@,
            canon_view(s[i].1),
        ) by {
            if i < s.len() - 1 {
                assert(s.drop_last()[i] == s[i]);
                assert(canon_obj_view(s)[i] == canon_obj_view(s.drop_last())[i]);
            } else {
                assert(s[i] == s.last());
            }
        }
    }
}

/// Uniqueness of an object's keys.
pub open spec fn keys_unique(entries: Seq<(Seq<char>, CanonV)>) -> bool {
    forall|i: int, j: int| 0 <= i < j < entries.len() ==> entries[i].0 != entries[j].0
}

/// Well-formedness of a canonical value: the unsigned variant is reserved
/// for values beyond the signed range, integers fit their machine type,
/// and object keys are unique.
pub open spec fn canon_wf(c: CanonV) -> bool
    decreases c,
{
    match c {
        CanonV::Null => true,
        CanonV::Bool(_) => true,
        CanonV::Int(i) => i64::MIN <= i <= i64::MAX,
        CanonV::Uint(u) => i64::MAX < u <= u64::MAX,
        CanonV::Float(_) => true,
        CanonV::Str(_) => true,
        CanonV::Arr(items) => canon_arr_wf(items),
        CanonV::Obj(entries) => canon_obj_wf(entries) && keys_unique(entries),
    }
}

pub open spec fn canon_arr_wf(items: Seq<CanonV>) -> bool
    decreases items,
{
    if items.len() == 0 {
        true
    } else {
        canon_arr_wf(items.drop_last()) && canon_wf(items.last())
    }
}

pub open spec fn canon_obj_wf(entries: Seq<(Seq<char>, CanonV)>) -> bool
    decreases entries,
{
    if entries.len() == 0 {
        true
    } else {
        canon_obj_wf(entries.drop_last()) && canon_wf(entries.last().1)
    }
}

/// A sequence of canonical values is well-formed exactly when each element
/// is.
pub proof fn lemma_canon_arr_wf(items: Seq<CanonV>)
    ensures
        canon_arr_wf(items) <==> (forall|i: int|
            0 <= i < items.len() ==> canon_wf(#[trigger] items[i])),
    decreases items,
{
    if items.len() > 0 {
        lemma_canon_arr_wf(items.drop_last());
        assert(forall|i: int| 0 <= i < items.len() - 1 ==> #[trigger] items[i]
            == items.drop_last()[i]);
        assert(items.last() == items[items.len() - 1]);
        if canon_arr_wf(items) {
            assert forall|i: int| 0 <= i < items.len() implies canon_wf(#[trigger] items[i]) by {
                if i < items.len() - 1 {
                    assert(items[i] == items.drop_last()[i]);
                }
            }
        }
    }
}

/// An object's values are well-formed exactly when each entry's value is.
pub proof fn lemma_canon_obj_wf(entries: Seq<(Seq<char>, CanonV)>)
    ensures
        canon_obj_wf(entries) <==> (forall|i: int|
            0 <= i < entries.len() ==> canon_wf((#[trigger] entries[i]).1)),
    decreases entries,
{
    if entries.len() > 0 {
        lemma_canon_obj_wf(entries.drop_last());
        assert(forall|i: int| 0 <= i < entries.len() - 1 ==> #[trigger] entries[i]
            == entries.drop_last()[i]);
        assert(entries.last() == entries[entries.len() - 1]);
        if canon_obj_wf(entries) {
            assert forall|i: int| 0 <= i < entries.len() implies canon_wf(
                (#[trigger] entries[i]).1,
            ) by {
                if i < entries.len() - 1 {
                    assert(entries[i] == entries.drop_last()[i]);
                }
            }
        }
    }
}

} // verus!

verus! {

/// An integer of the host runtime. Host integers are unbounded; one whose
/// magnitude fits a 128-bit signed value is carried exactly, anything larger
/// is `Big` (and can never be represented canonically).
#[derive(Debug, Clone, Copy, PartialEq, Eq)]
pub enum HostInt {
    Exact(i128),
    Big,
}

/// A float of the host runtime, classified by finiteness. A finite value is
/// carried as its decimal text; the text itself is what round-trips.
#[derive(Debug, Clone, PartialEq, Eq)]
pub enum HostFloat {
    Finite(String),
    Nan,
    Infinity,
    NegInfinity,
}

/// A key of a host mapping: either natively a string, a key whose string
/// conversion succeeded with the given text, or one whose string conversion
/// failed (carrying the key's runtime type name).
#[derive(Debug, Clone, PartialEq, Eq)]
pub enum HostKey {
    Str(String),
    Coerced(String),
    Uncoercible(String),
}

/// A dynamic value of the host runtime, as the bridge observes it: the
/// outcome of the capability probes the inbound converter relies on.
/// `Other` stands for any value exposing none of the recognized
/// capabilities and carries its runtime type name.
#[derive(Debug, PartialEq)]
pub enum HostValue {
    Null,
    Bool(bool),
    Int(HostInt),
    Float(HostFloat),
    Str(String),
    List(Vec<HostValue>),
    Tuple(Vec<HostValue>),
    Dict(Vec<(HostKey, HostValue)>),
    Other(String),
}

pub enum HostIntV {
    Exact(int),
    Big,
}

pub enum HostFloatV {
    Finite(Seq<char>),
    Nan,
    Infinity,
    NegInfinity,
}

pub enum HostKeyV {
    Str(Seq<char>),
    Coerced(Seq<char>),
    Uncoercible(Seq<char>),
}

pub enum HostV {
    Null,
    Bool(bool),
    Int(HostIntV),
    Float(HostFloatV),
    Str(Seq<char>),
    List(Seq<HostV>),
    Tuple(Seq<HostV>),
    Dict(Seq<(HostKeyV, HostV)>),
    Other(Seq<char>),
}

impl View for HostInt {
    type V = HostIntV;

    open spec fn view(&self) -> HostIntV {
        match self {
            HostInt::Exact(v) => HostIntV::Exact(*v as int),
            HostInt::Big => HostIntV::Big,
        }
    }
}

impl View for HostFloat {
    type V = HostFloatV;

    open spec fn view(&self) -> HostFloatV {
        match self {
            HostFloat::Finite(t) => HostFloatV::Finite(t@),
            HostFloat::Nan => HostFloatV::Nan,
            HostFloat::Infinity => HostFloatV::Infinity,
            HostFloat::NegInfinity => HostFloatV::NegInfinity,
        }
    }
}

impl View for HostKey {
    type V = HostKeyV;

    open spec fn view(&self) -> HostKeyV {
        match self {
            HostKey::Str(s) => HostKeyV::Str(s@),
            HostKey::Coerced(s) => HostKeyV::Coerced(s@),
            HostKey::Uncoercible(t) => HostKeyV::Uncoercible(t@),
        }
    }
}

pub open spec fn host_view(h: HostValue) -> HostV
    decreases h,
{
    match h {
        HostValue::Null => HostV::Null,
        HostValue::Bool(b) => HostV::Bool(b),
        HostValue::Int(i) => HostV::Int(i@),
        HostValue::Float(f) => HostV::Float(f@),
        HostValue::Str(s) => HostV::Str(s@),
        HostValue::List(items) => HostV::List(host_list_view(items@)),
        HostValue::Tuple(items) => HostV::Tuple(host_list_view(items@)),
        HostValue::Dict(entries) => HostV::Dict(host_dict_view(entries@)),
        HostValue::Other(t) => HostV::Other(t@),
    }
}

pub open spec fn host_list_view(s: Seq<HostValue>) -> Seq<HostV>
    decreases s,
{
    if s.len() == 0 {
        Seq::empty()
    } else {
        host_list_view(s.drop_last()).push(host_view(s.last()))
    }
}

pub open spec fn host_dict_view(s: Seq<(HostKey, HostValue)>) -> Seq<(HostKeyV, HostV)>
    decreases s,
{
    if s.len() == 0 {
        Seq::empty()
    } else {
        host_dict_view(s.drop_last()).push((s.last().0@, host_view(s.last().1)))
    }
}

impl View for HostValue {
    type V = HostV;

    open spec fn view(&self) -> HostV {
        host_view(*self)
    }
}

/// Each element of the viewed sequence is the view of the element.
pub proof fn lemma_host_list_view(s: Seq<HostValue>)
    ensures
        host_list_view(s).len() == s.len(),
        forall|i: int| 0 <= i < s.len() ==> host_list_view(s)[i] == host_view(#[trigger] s[i]),
    decreases s,
{
    if s.len() > 0 {
        lemma_host_list_view(s.drop_last());
        assert forall|i: int| 0 <= i < s.len() implies host_list_view(s)[i] == host_view(
            #[trigger] s[i],
        ) by {
            if i < s.len() - 1 {
                assert(s.drop_last()[i] == s[i]);
                assert(host_list_view(s)[i] == host_list_view(s.drop_last())[i]);
            } else {
                assert(s[i] == s.last());
            }
        }
    }
}

/// Each entry of the viewed entry sequence is the viewed key and value.
pub proof fn lemma_host_dict_view(s: Seq<(HostKey, HostValue)>)
    ensures
        host_dict_view(s).len() == s.len(),
        forall|i: int| 0 <= i < s.len() ==> host_dict_view(s)[i] == (
            #[trigger] s[i].0@,
            host_view(s[i].1),
        ),
    decreases s,
{
    if s.len() > 0 {
        lemma_host_dict_view(s.drop_last());
        assert forall|i: int| 0 <= i < s.len() implies host_dict_view(s)[i] == (
            #[trigger] s[i].0@,
            host_view(s[i].1),
        ) by {
            if i < s.len() - 1 {
                assert(s.drop_last()[i] == s[i]);
                assert(host_dict_view(s)[i] == host_dict_view(s.drop_last())[i]);
            } else {
                assert(s[i] == s.last());
            }
        }
    }
}

} // verus!
