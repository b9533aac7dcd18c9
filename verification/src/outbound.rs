//! The outbound converter: canonical values back to host values. Infallible
//! for any canonical value.

use vstd::prelude::*;
use crate::value::Canon;
use crate::value::CanonV;
use crate::value::HostFloat;
use crate::value::HostFloatV;
use crate::value::HostInt;
use crate::value::HostIntV;
use crate::value::HostKey;
use crate::value::HostKeyV;
use crate::value::HostV;
use crate::value::HostValue;
use crate::value::canon_arr_view;
use crate::value::canon_obj_view;
use crate::value::host_dict_view;
use crate::value::host_list_view;
use crate::value::lemma_canon_arr_view;
use crate::value::lemma_canon_obj_view;

verus! {

/// The host value a canonical value converts to: null, booleans, text and
/// numbers map to their host counterparts (signed and unsigned integers both
/// to the host's one integer type, losslessly), arrays to host lists in
/// order, and objects to host mappings with string keys in the same order.
pub open spec fn from_canon_spec(c: CanonV) -> HostV
    decreases c,
{
    match c {
        CanonV::Null => HostV::Null,
        CanonV::Bool(b) => HostV::Bool(b),
        CanonV::Int(i) => HostV::Int(HostIntV::Exact(i)),
        CanonV::Uint(u) => HostV::Int(HostIntV::Exact(u)),
        CanonV::Float(t) => HostV::Float(HostFloatV::Finite(t)),
        CanonV::Str(s) => HostV::Str(s),
        CanonV::Arr(items) => HostV::List(from_canon_arr(items)),
        CanonV::Obj(entries) => HostV::Dict(from_canon_obj(entries)),
    }
}

pub open spec fn from_canon_arr(s: Seq<CanonV>) -> Seq<HostV>
    decreases s,
{
    if s.len() == 0 {
        Seq::empty()
    } else {
        from_canon_arr(s.drop_last()).push(from_canon_spec(s.last()))
    }
}

pub open spec fn from_canon_obj(s: Seq<(Seq<char>, CanonV)>) -> Seq<(HostKeyV, HostV)>
    decreases s,
{
    if s.len() == 0 {
        Seq::empty()
    } else {
        from_canon_obj(s.drop_last()).push(
            (HostKeyV::Str(s.last().0), from_canon_spec(s.last().1)),
        )
    }
}

/// Each element of a converted sequence is the converted element.
pub proof fn lemma_from_canon_arr(s: Seq<CanonV>)
    ensures
        from_canon_arr(s).len() == s.len(),
        forall|i: int| 0 <= i < s.len() ==> from_canon_arr(s)[i] == from_canon_spec(
            #[trigger] s[i],
        ),
    decreases s,
{
    if s.len() > 0 {
        lemma_from_canon_arr(s.drop_last());
        assert forall|i: int| 0 <= i < s.len() implies from_canon_arr(s)[i] == from_canon_spec(
            #[trigger] s[i],
        ) by {
            if i < s.len() - 1 {
                assert(s.drop_last()[i] == s[i]);
                assert(from_canon_arr(s)[i] == from_canon_arr(s.drop_last())[i]);
            } else {
                assert(s[i] == s.last());
            }
        }
    }
}

/// Each entry of a converted entry sequence is the converted entry.
pub proof fn lemma_from_canon_obj(s: Seq<(Seq<char>, CanonV)>)
    ensures
        from_canon_obj(s).len() == s.len(),
        forall|i: int| 0 <= i < s.len() ==> from_canon_obj(s)[i] == (
            HostKeyV::Str(#[trigger] s[i].0),
            from_canon_spec(s[i].1),
        ),
    decreases s,
{
    if s.len() > 0 {
        lemma_from_canon_obj(s.drop_last());
        assert forall|i: int| 0 <= i < s.len() implies from_canon_obj(s)[i] == (
            HostKeyV::Str(#[trigger] s[i].0),
            from_canon_spec(s[i].1),
        ) by {
            if i < s.len() - 1 {
                assert(s.drop_last()[i] == s[i]);
                assert(from_canon_obj(s)[i] == from_canon_obj(s.drop_last())[i]);
            } else {
                assert(s[i] == s.last());
            }
        }
    }
}

/// Convert a canonical value to a host value.
#[verifier::loop_isolation(false)]
pub fn from_canonical(c: &Canon) -> (r: HostValue)
    ensures
        r@ == from_canon_spec(c@),
    decreases *c,
{
    match c {
        Canon::Null => HostValue::Null,
        Canon::Bool(b) => HostValue::Bool(*b),
        Canon::Int(i) => HostValue::Int(HostInt::Exact(*i as i128)),
        Canon::Uint(u) => HostValue::Int(HostInt::Exact(*u as i128)),
        Canon::Float(t) => HostValue::Float(HostFloat::Finite(t.clone())),
        Canon::Str(s) => HostValue::Str(s.clone()),
        Canon::Arr(items) => {
            let ghost v = canon_arr_view(items@);
            proof {
                lemma_canon_arr_view(items@);
            }
            let mut out: Vec<HostValue> = Vec::new();
            let mut j: usize = 0;
            while j < items.len()
                invariant
                    j <= items.len(),
                    out@.len() == j,
                    host_list_view(out@) == from_canon_arr(v.take(j as int)),
                decreases items.len() - j,
            {
                let h = from_canonical(&items[j]);
                proof {
                    assert(out@.push(h).drop_last() =~= out@);
                    assert(v.take(j + 1).drop_last() =~= v.take(j as int));
                    assert(v.take(j + 1).last() == v[j as int]);
                }
                out.push(h);
                j = j + 1;
            }
            proof {
                assert(v.take(items@.len() as int) =~= v);
            }
            HostValue::List(out)
        },
        Canon::Obj(entries) => {
            let ghost v = canon_obj_view(entries@);
            proof {
                lemma_canon_obj_view(entries@);
            }
            let mut out: Vec<(HostKey, HostValue)> = Vec::new();
            let mut j: usize = 0;
            while j < entries.len()
                invariant
                    j <= entries.len(),
                    out@.len() == j,
                    host_dict_view(out@) == from_canon_obj(v.take(j as int)),
                decreases entries.len() - j,
            {
                let e = &entries[j];
                let k = e.0.clone();
                let h = from_canonical(&e.1);
                proof {
                    assert(out@.push((HostKey::Str(k), h)).drop_last() =~= out@);
                    assert(v.take(j + 1).drop_last() =~= v.take(j as int));
                    assert(v.take(j + 1).last() == v[j as int]);
                }
                out.push((HostKey::Str(k), h));
                j = j + 1;
            }
            proof {
                assert(v.take(entries@.len() as int) =~= v);
            }
            HostValue::Dict(out)
        },
    }
}

} // verus!
