use toonpy::from_canonical;
use toonpy::to_canonical;
use toonpy::Canon;
use toonpy::ExceptionKind;
use toonpy::HostFloat;
use toonpy::HostInt;
use toonpy::HostKey;
use toonpy::HostValue;

#[test]
fn primitives_convert() {
    assert_eq!(to_canonical(&HostValue::Null).unwrap(), Canon::Null);
    assert_eq!(to_canonical(&HostValue::Bool(true)).unwrap(), Canon::Bool(true));
    assert_eq!(
        to_canonical(&HostValue::Int(HostInt::Exact(42))).unwrap(),
        Canon::Int(42)
    );
    assert_eq!(
        to_canonical(&HostValue::Str(String::from("hi"))).unwrap(),
        Canon::Str(String::from("hi"))
    );
    assert_eq!(
        to_canonical(&HostValue::Float(HostFloat::Finite(String::from("2.5")))).unwrap(),
        Canon::Float(String::from("2.5"))
    );
}

#[test]
fn integer_ranges() {
    let max_i64 = i64::MAX as i128;
    let max_u64 = u64::MAX as i128;
    assert_eq!(
        to_canonical(&HostValue::Int(HostInt::Exact(max_i64))).unwrap(),
        Canon::Int(i64::MAX)
    );
    assert_eq!(
        to_canonical(&HostValue::Int(HostInt::Exact(i64::MIN as i128))).unwrap(),
        Canon::Int(i64::MIN)
    );
    assert_eq!(
        to_canonical(&HostValue::Int(HostInt::Exact(max_i64 + 1))).unwrap(),
        Canon::Uint(i64::MAX as u64 + 1)
    );
    assert_eq!(
        to_canonical(&HostValue::Int(HostInt::Exact(max_u64))).unwrap(),
        Canon::Uint(u64::MAX)
    );
    let too_big = to_canonical(&HostValue::Int(HostInt::Exact(max_u64 + 1))).unwrap_err();
    assert_eq!(too_big.kind, ExceptionKind::Value);
    assert_eq!(too_big.message, "int too large to convert");
    let too_small =
        to_canonical(&HostValue::Int(HostInt::Exact(i64::MIN as i128 - 1))).unwrap_err();
    assert_eq!(too_small.message, "int too large to convert");
    let huge = to_canonical(&HostValue::Int(HostInt::Big)).unwrap_err();
    assert_eq!(huge.kind, ExceptionKind::Value);
}

#[test]
fn nonfinite_floats_rejected() {
    for f in [HostFloat::Nan, HostFloat::Infinity, HostFloat::NegInfinity] {
        let e = to_canonical(&HostValue::Float(f)).unwrap_err();
        assert_eq!(e.kind, ExceptionKind::Value);
        assert_eq!(e.message, "Invalid float value (NaN or Infinity)");
    }
}

#[test]
fn nonfinite_float_nested_rejected() {
    let h = HostValue::List(vec![
        HostValue::Int(HostInt::Exact(1)),
        HostValue::Float(HostFloat::Nan),
    ]);
    let e = to_canonical(&h).unwrap_err();
    assert_eq!(e.kind, ExceptionKind::Value);
    assert_eq!(e.message, "Invalid float value (NaN or Infinity)");
}

#[test]
fn unsupported_kind_named() {
    let e = to_canonical(&HostValue::Other(String::from("set"))).unwrap_err();
    assert_eq!(e.kind, ExceptionKind::Value);
    assert_eq!(e.message, "Cannot convert type 'set' to TOON format");
}

#[test]
fn tuple_converts_like_list() {
    let t = HostValue::Tuple(vec![HostValue::Bool(false), HostValue::Null]);
    let l = HostValue::List(vec![HostValue::Bool(false), HostValue::Null]);
    assert_eq!(to_canonical(&t).unwrap(), to_canonical(&l).unwrap());
}

#[test]
fn dict_keys_coerced_and_last_wins() {
    let h = HostValue::Dict(vec![
        (HostKey::Str(String::from("a")), HostValue::Int(HostInt::Exact(1))),
        (HostKey::Coerced(String::from("b")), HostValue::Int(HostInt::Exact(2))),
        (HostKey::Str(String::from("a")), HostValue::Int(HostInt::Exact(3))),
    ]);
    assert_eq!(
        to_canonical(&h).unwrap(),
        Canon::Obj(vec![
            (String::from("a"), Canon::Int(3)),
            (String::from("b"), Canon::Int(2)),
        ])
    );
}

#[test]
fn uncoercible_key_rejected() {
    let h = HostValue::Dict(vec![(
        HostKey::Uncoercible(String::from("object")),
        HostValue::Null,
    )]);
    let e = to_canonical(&h).unwrap_err();
    assert_eq!(e.kind, ExceptionKind::Value);
    assert_eq!(e.message, "Cannot convert type 'object' to TOON format");
}

#[test]
fn outbound_rebuilds_host_values() {
    let c = Canon::Obj(vec![
        (String::from("xs"), Canon::Arr(vec![Canon::Int(-1), Canon::Uint(u64::MAX)])),
        (String::from("f"), Canon::Float(String::from("0.5"))),
    ]);
    let h = from_canonical(&c);
    assert_eq!(
        h,
        HostValue::Dict(vec![
            (
                HostKey::Str(String::from("xs")),
                HostValue::List(vec![
                    HostValue::Int(HostInt::Exact(-1)),
                    HostValue::Int(HostInt::Exact(u64::MAX as i128)),
                ])
            ),
            (
                HostKey::Str(String::from("f")),
                HostValue::Float(HostFloat::Finite(String::from("0.5")))
            ),
        ])
    );
}

#[test]
fn outbound_then_inbound_round_trip() {
    let v = Canon::Obj(vec![
        (String::from("n"), Canon::Int(7)),
        (String::from("big"), Canon::Uint(u64::MAX)),
        (String::from("t"), Canon::Str(String::from("x"))),
        (
            String::from("inner"),
            Canon::Arr(vec![Canon::Null, Canon::Bool(true), Canon::Float(String::from("1.25"))]),
        ),
    ]);
    let h = from_canonical(&v);
    let v2 = to_canonical(&h).unwrap();
    assert_eq!(v2, v);
    assert_eq!(from_canonical(&v2), h);
}
