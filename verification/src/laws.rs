//! The general laws of the value bridge, stated over the converters' spec
//! functions and proved for all values.

use vstd::prelude::*;
use crate::inbound::find_key;
use crate::inbound::key_string;
use crate::inbound::lemma_find_key;
use crate::inbound::msg_nonfinite;
use crate::inbound::obj_upsert;
use crate::inbound::to_canon_arr;
use crate::inbound::to_canon_dict;
use crate::inbound::to_canon_spec;
use crate::api::spec_decode_all;
use crate::api::spec_decode_batch;
use crate::api::spec_decode_pipeline;
use crate::api::spec_encode_all;
use crate::api::spec_encode_batch;
use crate::api::spec_encode_pipeline;
use crate::codec::spec_toon_decode;
use crate::codec::spec_toon_encode;
use crate::errors::CodecErrV;
use crate::errors::ExceptionKind;
use crate::options::Delimiter;
use crate::options::Options;
use crate::outbound::from_canon_arr;
use crate::outbound::from_canon_obj;
use crate::outbound::from_canon_spec;
use crate::outbound::lemma_from_canon_arr;
use crate::outbound::lemma_from_canon_obj;
use crate::value::CanonV;
use crate::value::HostFloatV;
use crate::value::HostKeyV;
use crate::value::HostV;
use crate::value::canon_arr_wf;
use crate::value::canon_wf;
use crate::value::keys_unique;
use crate::value::lemma_canon_arr_wf;
use crate::value::lemma_canon_obj_wf;

verus! {

/// Whether a host value holds, anywhere inside it, a float that is NaN or
/// an infinity.
pub open spec fn host_has_nonfinite(h: HostV) -> bool
    decreases h,
{
    match h {
        HostV::Float(f) => !(f is Finite),
        HostV::List(items) => list_has_nonfinite(items),
        HostV::Tuple(items) => list_has_nonfinite(items),
        HostV::Dict(entries) => dict_has_nonfinite(entries),
        _ => false,
    }
}

pub open spec fn list_has_nonfinite(s: Seq<HostV>) -> bool
    decreases s,
{
    if s.len() == 0 {
        false
    } else {
        list_has_nonfinite(s.drop_last()) || host_has_nonfinite(s.last())
    }
}

pub open spec fn dict_has_nonfinite(s: Seq<(HostKeyV, HostV)>) -> bool
    decreases s,
{
    if s.len() == 0 {
        false
    } else {
        dict_has_nonfinite(s.drop_last()) || host_has_nonfinite(s.last().1)
    }
}

/// Non-finite float rejection: a host value holding a NaN or infinite float
/// anywhere never converts to a canonical value; the conversion fails with
/// a validation message.
pub proof fn lemma_nonfinite_rejected(h: HostV)
    requires
        host_has_nonfinite(h),
    ensures
        to_canon_spec(h) is Err,
    decreases h,
{
    match h {
        HostV::List(items) => lemma_list_nonfinite_rejected(items),
        HostV::Tuple(items) => lemma_list_nonfinite_rejected(items),
        HostV::Dict(entries) => lemma_dict_nonfinite_rejected(entries),
        _ => {},
    }
}

proof fn lemma_list_nonfinite_rejected(s: Seq<HostV>)
    requires
        list_has_nonfinite(s),
    ensures
        to_canon_arr(s) is Err,
    decreases s,
{
    if list_has_nonfinite(s.drop_last()) {
        lemma_list_nonfinite_rejected(s.drop_last());
    } else {
        lemma_nonfinite_rejected(s.last());
    }
}

proof fn lemma_dict_nonfinite_rejected(s: Seq<(HostKeyV, HostV)>)
    requires
        dict_has_nonfinite(s),
    ensures
        to_canon_dict(s) is Err,
    decreases s,
{
    if dict_has_nonfinite(s.drop_last()) {
        lemma_dict_nonfinite_rejected(s.drop_last());
    } else {
        lemma_nonfinite_rejected(s.last().1);
    }
}

/// A single non-finite host float is rejected with exactly the validation
/// message naming the problem.
pub proof fn lemma_nonfinite_float_message(f: HostFloatV)
    requires
        !(f is Finite),
    ensures
        to_canon_spec(HostV::Float(f)) == Result::<CanonV, Seq<char>>::Err(msg_nonfinite()),
{
}

} // verus!

verus! {

/// Round-trip identity, canonical side: converting the host value produced
/// from a well-formed canonical value recovers that canonical value exactly,
/// so converting out, in, and out again changes nothing.
pub proof fn lemma_round_trip_identity(v: CanonV)
    requires
        canon_wf(v),
    ensures
        to_canon_spec(from_canon_spec(v)) == Result::<CanonV, Seq<char>>::Ok(v),
        from_canon_spec(to_canon_spec(from_canon_spec(v))->Ok_0) == from_canon_spec(v),
    decreases v,
{
    match v {
        CanonV::Arr(items) => {
            lemma_canon_arr_wf(items);
            lemma_arr_round_trip(items);
        },
        CanonV::Obj(entries) => {
            lemma_canon_obj_wf(entries);
            lemma_obj_round_trip(entries);
        },
        _ => {},
    }
}

proof fn lemma_arr_round_trip(s: Seq<CanonV>)
    requires
        forall|i: int| 0 <= i < s.len() ==> canon_wf(#[trigger] s[i]),
    ensures
        to_canon_arr(from_canon_arr(s)) == Result::<Seq<CanonV>, Seq<char>>::Ok(s),
    decreases s,
{
    if s.len() > 0 {
        assert forall|i: int| 0 <= i < s.drop_last().len() implies canon_wf(
            #[trigger] s.drop_last()[i],
        ) by {
            assert(s.drop_last()[i] == s[i]);
        }
        lemma_arr_round_trip(s.drop_last());
        assert(s.last() == s[s.len() - 1]);
        lemma_round_trip_identity(s.last());
        let f = from_canon_arr(s);
        assert(f == from_canon_arr(s.drop_last()).push(from_canon_spec(s.last())));
        assert(f.drop_last() =~= from_canon_arr(s.drop_last()));
        assert(f.last() == from_canon_spec(s.last()));
        assert(f.len() > 0);
        assert(to_canon_arr(f.drop_last()) == Result::<Seq<CanonV>, Seq<char>>::Ok(s.drop_last()));
        assert(to_canon_spec(f.last()) == Result::<CanonV, Seq<char>>::Ok(s.last()));
        assert(to_canon_arr(f) == Result::<Seq<CanonV>, Seq<char>>::Ok(
            s.drop_last().push(s.last()),
        ));
        assert(s.drop_last().push(s.last()) =~= s);
    } else {
        assert(s =~= Seq::<CanonV>::empty());
    }
}

proof fn lemma_obj_round_trip(entries: Seq<(Seq<char>, CanonV)>)
    requires
        forall|i: int| 0 <= i < entries.len() ==> canon_wf((#[trigger] entries[i]).1),
        keys_unique(entries),
    ensures
        to_canon_dict(from_canon_obj(entries)) == Result::<
            Seq<(Seq<char>, CanonV)>,
            Seq<char>,
        >::Ok(entries),
    decreases entries,
{
    if entries.len() > 0 {
        let pre = entries.drop_last();
        assert forall|i: int| 0 <= i < pre.len() implies canon_wf((#[trigger] pre[i]).1) by {
            assert(pre[i] == entries[i]);
        }
        assert forall|i: int, j: int| 0 <= i < j < pre.len() implies pre[i].0 != pre[j].0 by {
            assert(pre[i] == entries[i]);
            assert(pre[j] == entries[j]);
        }
        lemma_obj_round_trip(pre);
        assert(entries.last() == entries[entries.len() - 1]);
        lemma_round_trip_identity(entries.last().1);
        let k = entries.last().0;
        let f = from_canon_obj(entries);
        assert(f == from_canon_obj(pre).push(
            (HostKeyV::Str(k), from_canon_spec(entries.last().1)),
        ));
        assert(f.drop_last() =~= from_canon_obj(pre));
        assert(f.last() == (HostKeyV::Str(k), from_canon_spec(entries.last().1)));
        assert(f.len() > 0);
        assert(to_canon_dict(f.drop_last()) == Result::<Seq<(Seq<char>, CanonV)>, Seq<char>>::Ok(
            pre,
        ));
        assert(key_string(f.last().0) == Result::<Seq<char>, Seq<char>>::Ok(k));
        assert(to_canon_spec(f.last().1) == Result::<CanonV, Seq<char>>::Ok(entries.last().1));
        lemma_find_key(pre, k);
        assert forall|i: int| 0 <= i < pre.len() implies ((#[trigger] pre[i]).0) != k by {
            assert(pre[i] == entries[i]);
        }
        assert(find_key(pre, k) == -1);
        assert(to_canon_dict(f) == Result::<Seq<(Seq<char>, CanonV)>, Seq<char>>::Ok(
            obj_upsert(pre, k, entries.last().1),
        ));
        assert(obj_upsert(pre, k, entries.last().1) == pre.push((k, entries.last().1)));
        assert(pre.push((k, entries.last().1)) =~= entries);
    } else {
        assert(entries =~= Seq::<(Seq<char>, CanonV)>::empty());
    }
}

/// Conversion establishes the canonical model's invariant: whatever a host
/// value converts to is well-formed (the unsigned variant only above the
/// signed range, and object keys unique).
pub proof fn lemma_to_canon_wf(h: HostV)
    ensures
        to_canon_spec(h) matches Ok(c) ==> canon_wf(c),
    decreases h,
{
    match h {
        HostV::List(items) => lemma_to_canon_arr_wf(items),
        HostV::Tuple(items) => lemma_to_canon_arr_wf(items),
        HostV::Dict(entries) => lemma_to_canon_dict_wf(entries),
        _ => {},
    }
}

proof fn lemma_to_canon_arr_wf(s: Seq<HostV>)
    ensures
        to_canon_arr(s) matches Ok(cs) ==> canon_wf(CanonV::Arr(cs)),
    decreases s,
{
    if s.len() > 0 {
        lemma_to_canon_arr_wf(s.drop_last());
        lemma_to_canon_wf(s.last());
        if to_canon_arr(s) is Ok {
            let cs = to_canon_arr(s)->Ok_0;
            let pre = to_canon_arr(s.drop_last())->Ok_0;
            let c = to_canon_spec(s.last())->Ok_0;
            assert(cs == pre.push(c));
            assert(cs.drop_last() =~= pre);
            assert(cs.last() == c);
            assert(canon_arr_wf(cs));
        }
    }
}

proof fn lemma_to_canon_dict_wf(s: Seq<(HostKeyV, HostV)>)
    ensures
        to_canon_dict(s) matches Ok(es) ==> canon_wf(CanonV::Obj(es)),
    decreases s,
{
    if s.len() > 0 {
        lemma_to_canon_dict_wf(s.drop_last());
        lemma_to_canon_wf(s.last().1);
        if to_canon_dict(s) is Ok {
            let pre = to_canon_dict(s.drop_last())->Ok_0;
            let k = key_string(s.last().0)->Ok_0;
            let c = to_canon_spec(s.last().1)->Ok_0;
            lemma_obj_upsert_wf(pre, k, c);
        }
    }
}

/// Upserting a well-formed value into a well-formed object keeps the object
/// well-formed: keys stay unique whether the key is fresh or replaced.
proof fn lemma_obj_upsert_wf(m: Seq<(Seq<char>, CanonV)>, k: Seq<char>, c: CanonV)
    requires
        canon_wf(CanonV::Obj(m)),
        canon_wf(c),
    ensures
        canon_wf(CanonV::Obj(obj_upsert(m, k, c))),
{
    lemma_find_key(m, k);
    lemma_canon_obj_wf(m);
    let r = obj_upsert(m, k, c);
    lemma_canon_obj_wf(r);
    if find_key(m, k) < 0 {
        assert(r == m.push((k, c)));
        assert forall|i: int| 0 <= i < r.len() implies canon_wf((#[trigger] r[i]).1) by {
            if i < m.len() {
                assert(r[i] == m[i]);
                assert(canon_wf(m[i].1));
            } else {
                assert(r[i] == (k, c));
            }
        }
        assert forall|i: int, j: int| 0 <= i < j < r.len() implies r[i].0 != r[j].0 by {
            if j < m.len() {
                assert(r[i] == m[i]);
                assert(r[j] == m[j]);
                assert(m[i].0 != m[j].0);
            } else {
                assert(r[i] == m[i]);
                assert(r[j] == (k, c));
                assert(m[i].0 != k);
            }
        }
    } else {
        let f = find_key(m, k);
        assert(m[f].0 == k);
        assert(r == m.update(f, (k, c)));
        assert forall|i: int| 0 <= i < r.len() implies canon_wf((#[trigger] r[i]).1) by {
            if i != f {
                assert(r[i] == m[i]);
                assert(canon_wf(m[i].1));
            } else {
                assert(r[i] == (k, c));
            }
        }
        assert forall|i: int, j: int| 0 <= i < j < r.len() implies r[i].0 != r[j].0 by {
            if i != f {
                assert(r[i] == m[i]);
            } else {
                assert(r[i] == (k, c));
            }
            if j != f {
                assert(r[j] == m[j]);
            } else {
                assert(r[j] == (k, c));
            }
            assert(m[i].0 != m[j].0);
        }
    }
}

} // verus!

verus! {

/// Each element of a successfully converted sequence is the conversion of
/// the element at the same position.
pub proof fn lemma_to_canon_arr_pointwise(s: Seq<HostV>)
    ensures
        to_canon_arr(s) matches Ok(cs) ==> cs.len() == s.len() && (forall|i: int|
            0 <= i < s.len() ==> to_canon_spec(#[trigger] s[i]) == Result::<
                CanonV,
                Seq<char>,
            >::Ok(cs[i])),
    decreases s,
{
    if s.len() > 0 && to_canon_arr(s) is Ok {
        lemma_to_canon_arr_pointwise(s.drop_last());
        let cs = to_canon_arr(s)->Ok_0;
        let pre = to_canon_arr(s.drop_last())->Ok_0;
        assert(cs == pre.push(to_canon_spec(s.last())->Ok_0));
        assert forall|i: int| 0 <= i < s.len() implies to_canon_spec(#[trigger] s[i]) == Result::<
            CanonV,
            Seq<char>,
        >::Ok(cs[i]) by {
            if i < s.len() - 1 {
                assert(s.drop_last()[i] == s[i]);
                assert(cs[i] == pre[i]);
            } else {
                assert(s[i] == s.last());
            }
        }
    }
}

/// Each text of a successful batch encode phase is the encoding of the
/// canonical value at the same position.
pub proof fn lemma_encode_all_pointwise(cs: Seq<CanonV>, d: Delimiter)
    ensures
        spec_encode_all(cs, d) matches Ok(ts) ==> ts.len() == cs.len() && (forall|i: int|
            0 <= i < cs.len() ==> spec_toon_encode(#[trigger] cs[i], d) == Result::<
                Seq<char>,
                CodecErrV,
            >::Ok(ts[i])),
    decreases cs,
{
    if cs.len() > 0 && spec_encode_all(cs, d) is Ok {
        lemma_encode_all_pointwise(cs.drop_last(), d);
        let ts = spec_encode_all(cs, d)->Ok_0;
        let pre = spec_encode_all(cs.drop_last(), d)->Ok_0;
        assert(ts == pre.push(spec_toon_encode(cs.last(), d)->Ok_0));
        assert forall|i: int| 0 <= i < cs.len() implies spec_toon_encode(#[trigger] cs[i], d)
            == Result::<Seq<char>, CodecErrV>::Ok(ts[i]) by {
            if i < cs.len() - 1 {
                assert(cs.drop_last()[i] == cs[i]);
                assert(ts[i] == pre[i]);
            } else {
                assert(cs[i] == cs.last());
            }
        }
    }
}

/// Batch order preservation: when a batch encode succeeds, it returns one
/// text per input, in input order, and each text is exactly what the
/// single-value encode pipeline returns for the input at that position.
pub proof fn lemma_batch_order_preserved(hs: Seq<HostV>, o: Options)
    ensures
        spec_encode_batch(hs, o) matches Ok(ts) ==> ts.len() == hs.len() && (forall|i: int|
            0 <= i < hs.len() ==> spec_encode_pipeline(#[trigger] hs[i], o) == Result::<
                Seq<char>,
                (ExceptionKind, Seq<char>),
            >::Ok(ts[i])),
{
    if spec_encode_batch(hs, o) is Ok {
        lemma_to_canon_arr_pointwise(hs);
        let cs = to_canon_arr(hs)->Ok_0;
        lemma_encode_all_pointwise(cs, o.delimiter);
    }
}

} // verus!

verus! {

/// Whether two mapping keys coerce to distinct strings (vacuously true when
/// either coercion fails).
pub open spec fn keys_distinct_pair(a: HostKeyV, b: HostKeyV) -> bool {
    match (key_string(a), key_string(b)) {
        (Ok(x), Ok(y)) => x != y,
        _ => true,
    }
}

/// No two keys of a mapping coerce to the same string.
pub open spec fn dict_keys_distinct(entries: Seq<(HostKeyV, HostV)>) -> bool {
    forall|i: int, j: int|
        0 <= i < j < entries.len() ==> keys_distinct_pair(
            (#[trigger] entries[i]).0,
            (#[trigger] entries[j]).0,
        )
}

/// Well-formedness of a host value for round-tripping: in every mapping,
/// recursively, no two keys coerce to the same string.
pub open spec fn host_wf(h: HostV) -> bool
    decreases h,
{
    match h {
        HostV::List(items) => host_list_wf(items),
        HostV::Tuple(items) => host_list_wf(items),
        HostV::Dict(entries) => host_dict_wf(entries) && dict_keys_distinct(entries),
        _ => true,
    }
}

pub open spec fn host_list_wf(s: Seq<HostV>) -> bool
    decreases s,
{
    if s.len() == 0 {
        true
    } else {
        host_list_wf(s.drop_last()) && host_wf(s.last())
    }
}

pub open spec fn host_dict_wf(s: Seq<(HostKeyV, HostV)>) -> bool
    decreases s,
{
    if s.len() == 0 {
        true
    } else {
        host_dict_wf(s.drop_last()) && host_wf(s.last().1)
    }
}

/// Structural equality of host values: host sequences (lists and tuples)
/// compare by their elements, mappings by coerced key and value in order,
/// and everything else by value.
pub open spec fn host_equiv(a: HostV, b: HostV) -> bool
    decreases a,
{
    match (a, b) {
        (HostV::Null, HostV::Null) => true,
        (HostV::Bool(x), HostV::Bool(y)) => x == y,
        (HostV::Int(x), HostV::Int(y)) => x == y,
        (HostV::Float(x), HostV::Float(y)) => x == y,
        (HostV::Str(x), HostV::Str(y)) => x == y,
        (HostV::List(x), HostV::List(y)) => list_equiv(x, y),
        (HostV::List(x), HostV::Tuple(y)) => list_equiv(x, y),
        (HostV::Tuple(x), HostV::List(y)) => list_equiv(x, y),
        (HostV::Tuple(x), HostV::Tuple(y)) => list_equiv(x, y),
        (HostV::Dict(x), HostV::Dict(y)) => dict_equiv(x, y),
        (HostV::Other(x), HostV::Other(y)) => x == y,
        _ => false,
    }
}

pub open spec fn list_equiv(x: Seq<HostV>, y: Seq<HostV>) -> bool
    decreases x,
{
    if x.len() != y.len() {
        false
    } else if x.len() == 0 {
        true
    } else {
        list_equiv(x.drop_last(), y.drop_last()) && host_equiv(x.last(), y.last())
    }
}

pub open spec fn dict_equiv(x: Seq<(HostKeyV, HostV)>, y: Seq<(HostKeyV, HostV)>) -> bool
    decreases x,
{
    if x.len() != y.len() {
        false
    } else if x.len() == 0 {
        true
    } else {
        &&& dict_equiv(x.drop_last(), y.drop_last())
        &&& (match (key_string(x.last().0), key_string(y.last().0)) {
            (Ok(kx), Ok(ky)) => kx == ky,
            _ => false,
        })
        &&& host_equiv(x.last().1, y.last().1)
    }
}

/// With distinct coerced keys, converting a mapping is plain and in order:
/// one entry per input entry, at the same position.
proof fn lemma_to_canon_dict_unique(s: Seq<(HostKeyV, HostV)>)
    requires
        dict_keys_distinct(s),
        to_canon_dict(s) is Ok,
    ensures
        to_canon_dict(s)->Ok_0.len() == s.len(),
        forall|i: int|
            0 <= i < s.len() ==> key_string((#[trigger] s[i]).0) == Result::<
                Seq<char>,
                Seq<char>,
            >::Ok(to_canon_dict(s)->Ok_0[i].0) && to_canon_spec(s[i].1) == Result::<
                CanonV,
                Seq<char>,
            >::Ok(to_canon_dict(s)->Ok_0[i].1),
    decreases s,
{
    if s.len() > 0 {
        let pre_s = s.drop_last();
        assert forall|i: int, j: int| 0 <= i < j < pre_s.len() implies keys_distinct_pair(
            (#[trigger] pre_s[i]).0,
            (#[trigger] pre_s[j]).0,
        ) by {
            assert(pre_s[i] == s[i]);
            assert(pre_s[j] == s[j]);
        }
        lemma_to_canon_dict_unique(pre_s);
        let m = to_canon_dict(s)->Ok_0;
        let pre = to_canon_dict(pre_s)->Ok_0;
        let k = key_string(s.last().0)->Ok_0;
        let c = to_canon_spec(s.last().1)->Ok_0;
        lemma_find_key(pre, k);
        assert(s.last() == s[s.len() - 1]);
        assert forall|i: int| 0 <= i < pre.len() implies ((#[trigger] pre[i]).0) != k by {
            assert(pre_s[i] == s[i]);
            assert(keys_distinct_pair(s[i].0, s[s.len() - 1].0));
            assert(key_string(s[i].0) == Result::<Seq<char>, Seq<char>>::Ok(pre[i].0));
        }
        assert(find_key(pre, k) == -1);
        assert(m == pre.push((k, c)));
        assert forall|i: int| 0 <= i < s.len() implies key_string((#[trigger] s[i]).0) == Result::<
            Seq<char>,
            Seq<char>,
        >::Ok(m[i].0) && to_canon_spec(s[i].1) == Result::<CanonV, Seq<char>>::Ok(m[i].1) by {
            if i < s.len() - 1 {
                assert(pre_s[i] == s[i]);
                assert(m[i] == pre[i]);
            } else {
                assert(m[i] == (k, c));
            }
        }
    }
}

/// Converting a host value in and back out yields a host value structurally
/// equal to the original, provided its mapping keys stay distinct after
/// coercion.
pub proof fn lemma_out_in_equiv(h: HostV)
    requires
        host_wf(h),
        to_canon_spec(h) is Ok,
    ensures
        host_equiv(from_canon_spec(to_canon_spec(h)->Ok_0), h),
    decreases h,
{
    match h {
        HostV::List(items) => lemma_list_out_in(items),
        HostV::Tuple(items) => lemma_list_out_in(items),
        HostV::Dict(entries) => lemma_dict_out_in(entries),
        _ => {},
    }
}

proof fn lemma_list_out_in(s: Seq<HostV>)
    requires
        host_list_wf(s),
        to_canon_arr(s) is Ok,
    ensures
        list_equiv(from_canon_arr(to_canon_arr(s)->Ok_0), s),
    decreases s,
{
    let cs = to_canon_arr(s)->Ok_0;
    lemma_from_canon_arr(cs);
    if s.len() == 0 {
        assert(cs =~= Seq::<CanonV>::empty());
    } else {
        lemma_list_out_in(s.drop_last());
        lemma_out_in_equiv(s.last());
        let pre = to_canon_arr(s.drop_last())->Ok_0;
        let c = to_canon_spec(s.last())->Ok_0;
        assert(cs == pre.push(c));
        assert(cs.drop_last() =~= pre);
        assert(cs.last() == c);
        let f = from_canon_arr(cs);
        assert(f == from_canon_arr(cs.drop_last()).push(from_canon_spec(cs.last())));
        assert(f.drop_last() =~= from_canon_arr(pre));
        assert(f.last() == from_canon_spec(c));
        lemma_from_canon_arr(pre);
        lemma_to_canon_arr_pointwise(s);
        assert(f.len() == s.len());
    }
}

proof fn lemma_dict_out_in(s: Seq<(HostKeyV, HostV)>)
    requires
        host_dict_wf(s),
        dict_keys_distinct(s),
        to_canon_dict(s) is Ok,
    ensures
        dict_equiv(from_canon_obj(to_canon_dict(s)->Ok_0), s),
    decreases s,
{
    let m = to_canon_dict(s)->Ok_0;
    lemma_from_canon_obj(m);
    lemma_to_canon_dict_unique(s);
    if s.len() == 0 {
        assert(m =~= Seq::<(Seq<char>, CanonV)>::empty());
    } else {
        let pre_s = s.drop_last();
        assert forall|i: int, j: int| 0 <= i < j < pre_s.len() implies keys_distinct_pair(
            (#[trigger] pre_s[i]).0,
            (#[trigger] pre_s[j]).0,
        ) by {
            assert(pre_s[i] == s[i]);
            assert(pre_s[j] == s[j]);
        }
        lemma_dict_out_in(pre_s);
        lemma_out_in_equiv(s.last().1);
        lemma_to_canon_dict_unique(pre_s);
        let pre = to_canon_dict(pre_s)->Ok_0;
        let k = key_string(s.last().0)->Ok_0;
        let c = to_canon_spec(s.last().1)->Ok_0;
        lemma_find_key(pre, k);
        assert(s.last() == s[s.len() - 1]);
        assert forall|i: int| 0 <= i < pre.len() implies ((#[trigger] pre[i]).0) != k by {
            assert(pre_s[i] == s[i]);
            assert(keys_distinct_pair(s[i].0, s[s.len() - 1].0));
            assert(key_string(s[i].0) == Result::<Seq<char>, Seq<char>>::Ok(pre[i].0));
        }
        assert(find_key(pre, k) == -1);
        assert(m == pre.push((k, c)));
        assert(m.drop_last() =~= pre);
        assert(m.last() == (k, c));
        let f = from_canon_obj(m);
        assert(f == from_canon_obj(m.drop_last()).push(
            (HostKeyV::Str(m.last().0), from_canon_spec(m.last().1)),
        ));
        assert(f.drop_last() =~= from_canon_obj(pre));
        assert(f.last() == (HostKeyV::Str(k), from_canon_spec(c)));
        lemma_from_canon_obj(pre);
        assert(f.len() == s.len());
        assert(key_string(f.last().0) == Result::<Seq<char>, Seq<char>>::Ok(k));
    }
}

/// Encode/decode inverse through this layer: for a convertible host value
/// whose mapping keys stay distinct after coercion, if the codec decodes
/// the text it encoded back to the same canonical value, then decoding the
/// encoding yields a host value structurally equal to the original (host
/// sequences collapse to lists, coerced keys to their strings, and both
/// integer variants to their value).
pub proof fn lemma_encode_decode_inverse(h: HostV, o: Options)
    requires
        host_wf(h),
        to_canon_spec(h) is Ok,
        spec_toon_encode(to_canon_spec(h)->Ok_0, o.delimiter) is Ok,
        spec_toon_decode(
            spec_toon_encode(to_canon_spec(h)->Ok_0, o.delimiter)->Ok_0,
            o.delimiter,
            o.strict,
        ) == Result::<CanonV, CodecErrV>::Ok(to_canon_spec(h)->Ok_0),
    ensures
        spec_encode_pipeline(h, o) is Ok,
        spec_decode_pipeline(spec_encode_pipeline(h, o)->Ok_0, o) matches Ok(h2) && host_equiv(
            h2,
            h,
        ),
{
    lemma_out_in_equiv(h);
}

} // verus!

verus! {

/// Each canonical value of a successful batch decode phase is the decoding
/// of the text at the same position.
pub proof fn lemma_decode_all_pointwise(ts: Seq<Seq<char>>, d: Delimiter, strict: bool)
    ensures
        spec_decode_all(ts, d, strict) matches Ok(cs) ==> cs.len() == ts.len() && (forall|i: int|
            0 <= i < ts.len() ==> spec_toon_decode(#[trigger] ts[i], d, strict) == Result::<
                CanonV,
                CodecErrV,
            >::Ok(cs[i])),
    decreases ts,
{
    if ts.len() > 0 && spec_decode_all(ts, d, strict) is Ok {
        lemma_decode_all_pointwise(ts.drop_last(), d, strict);
        let cs = spec_decode_all(ts, d, strict)->Ok_0;
        let pre = spec_decode_all(ts.drop_last(), d, strict)->Ok_0;
        assert(cs == pre.push(spec_toon_decode(ts.last(), d, strict)->Ok_0));
        assert forall|i: int| 0 <= i < ts.len() implies spec_toon_decode(
            #[trigger] ts[i],
            d,
            strict,
        ) == Result::<CanonV, CodecErrV>::Ok(cs[i]) by {
            if i < ts.len() - 1 {
                assert(ts.drop_last()[i] == ts[i]);
                assert(cs[i] == pre[i]);
            } else {
                assert(ts[i] == ts.last());
            }
        }
    }
}

/// Batch order preservation, decode side: when a batch decode succeeds, it
/// returns one host value per input text, in input order, and each is
/// exactly what the single-value decode pipeline returns for the text at
/// that position.
pub proof fn lemma_decode_batch_order_preserved(ts: Seq<Seq<char>>, o: Options)
    ensures
        spec_decode_batch(ts, o) matches Ok(hs) ==> hs.len() == ts.len() && (forall|i: int|
            0 <= i < ts.len() ==> spec_decode_pipeline(#[trigger] ts[i], o) == Result::<
                HostV,
                (ExceptionKind, Seq<char>),
            >::Ok(hs[i])),
{
    if spec_decode_batch(ts, o) is Ok {
        lemma_decode_all_pointwise(ts, o.delimiter, o.strict);
        let cs = spec_decode_all(ts, o.delimiter, o.strict)->Ok_0;
        lemma_from_canon_arr(cs);
    }
}

} // verus!
