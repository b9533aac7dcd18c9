use toonpy::convert_toon_error;
use toonpy::decode;
use toonpy::decode_batch;
use toonpy::decode_bytes;
use toonpy::decode_with_options;
use toonpy::dumps;
use toonpy::encode;
use toonpy::encode_batch;
use toonpy::encode_bytes;
use toonpy::encode_with_options;
use toonpy::json_to_toon;
use toonpy::loads;
use toonpy::toon_to_json;
use toonpy::validate;
use toonpy::CodecError;
use toonpy::ExceptionKind;
use toonpy::HostFloat;
use toonpy::HostInt;
use toonpy::HostKey;
use toonpy::HostValue;
use toonpy::Options;

fn dict(entries: Vec<(&str, HostValue)>) -> HostValue {
    HostValue::Dict(
        entries
            .into_iter()
            .map(|(k, v)| (HostKey::Str(String::from(k)), v))
            .collect(),
    )
}

fn num(v: i128) -> HostValue {
    HostValue::Int(HostInt::Exact(v))
}

fn s(v: &str) -> HostValue {
    HostValue::Str(String::from(v))
}

fn entry_of<'a>(h: &'a HostValue, key: &str) -> &'a HostValue {
    match h {
        HostValue::Dict(entries) => {
            for (k, v) in entries {
                let ks = match k {
                    HostKey::Str(t) => t,
                    HostKey::Coerced(t) => t,
                    HostKey::Uncoercible(t) => t,
                };
                if ks == key {
                    return v;
                }
            }
            panic!("key {} missing", key);
        }
        _ => panic!("not a mapping"),
    }
}

#[test]
fn encode_simple_mapping() {
    let text = encode(&dict(vec![("name", s("Alice")), ("age", num(30))]), None, None).unwrap();
    let lines: Vec<&str> = text.lines().collect();
    assert!(lines.contains(&"age: 30"));
    assert!(lines.contains(&"name: Alice"));
}

#[test]
fn decode_simple_mapping() {
    let h = decode("name: Alice\nage: 30", None, None).unwrap();
    assert_eq!(entry_of(&h, "name"), &s("Alice"));
    assert_eq!(entry_of(&h, "age"), &num(30));
}

#[test]
fn decode_then_compare_whole_value() {
    let h = decode("a: 1\nb: true", None, None).unwrap();
    match &h {
        HostValue::Dict(entries) => assert_eq!(entries.len(), 2),
        _ => panic!("expected a mapping"),
    }
    assert_eq!(entry_of(&h, "a"), &num(1));
    assert_eq!(entry_of(&h, "b"), &HostValue::Bool(true));
}

#[test]
fn encode_decode_inverse_on_mapping() {
    let original = dict(vec![
        ("name", s("Alice")),
        ("age", num(30)),
        ("tags", HostValue::List(vec![s("a"), s("b")])),
    ]);
    let text = encode(&original, None, None).unwrap();
    let back = decode(&text, None, None).unwrap();
    assert_eq!(entry_of(&back, "name"), &s("Alice"));
    assert_eq!(entry_of(&back, "age"), &num(30));
    assert_eq!(
        entry_of(&back, "tags"),
        &HostValue::List(vec![s("a"), s("b")])
    );
}

#[test]
fn float_survives_round_trip() {
    let original = dict(vec![(
        "price",
        HostValue::Float(HostFloat::Finite(String::from("9.99"))),
    )]);
    let text = encode(&original, None, None).unwrap();
    let back = decode(&text, None, None).unwrap();
    assert_eq!(
        entry_of(&back, "price"),
        &HostValue::Float(HostFloat::Finite(String::from("9.99")))
    );
}

#[test]
fn encode_rejects_invalid_delimiter() {
    let e = encode(&num(1), Some("semicolon"), None).unwrap_err();
    assert_eq!(e.kind, ExceptionKind::Value);
    assert_eq!(
        e.message,
        "Invalid delimiter 'semicolon'. Must be 'comma', 'tab', or 'pipe'"
    );
}

#[test]
fn encode_rejects_nan() {
    let e = encode(&HostValue::Float(HostFloat::Nan), None, None).unwrap_err();
    assert_eq!(e.kind, ExceptionKind::Value);
    assert_eq!(e.message, "Invalid float value (NaN or Infinity)");
}

#[test]
fn delimiters_change_output() {
    let v = dict(vec![("tags", HostValue::List(vec![s("x"), s("y")]))]);
    let comma = encode(&v, Some("comma"), None).unwrap();
    let tab = encode(&v, Some("tab"), None).unwrap();
    let pipe = encode(&v, Some("pipe"), None).unwrap();
    assert!(comma.contains("x,y"));
    assert!(tab.contains("x\ty"));
    assert!(pipe.contains("x|y"));
}

#[test]
fn with_options_variants_agree() {
    let v = dict(vec![("k", num(5))]);
    let o = Options::new(Some("comma"), Some(false)).unwrap();
    assert_eq!(
        encode(&v, None, None).unwrap(),
        encode_with_options(&v, Some(&o)).unwrap()
    );
    let text = encode_with_options(&v, None).unwrap();
    let h1 = decode_with_options(&text, Some(&o)).unwrap();
    let h2 = decode(&text, None, None).unwrap();
    assert_eq!(h1, h2);
}

#[test]
fn byte_variants_round_trip() {
    let v = dict(vec![("k", s("v"))]);
    let bytes = encode_bytes(&v, None).unwrap();
    let text = encode_with_options(&v, None).unwrap();
    assert_eq!(bytes, text.as_bytes());
    let back = decode_bytes(&bytes, None).unwrap();
    assert_eq!(entry_of(&back, "k"), &s("v"));
}

#[test]
fn decode_bytes_rejects_invalid_utf8() {
    let e = decode_bytes(&[0x66, 0xff, 0xfe], None).unwrap_err();
    assert_eq!(e.kind, ExceptionKind::ToonIo);
    assert!(e.is_io_error());
    assert!(e.is_toon_error());
}

#[test]
fn dumps_and_loads_are_default_aliases() {
    let v = dict(vec![("a", num(1))]);
    let text = dumps(&v).unwrap();
    assert_eq!(text, encode(&v, None, None).unwrap());
    let back = loads(&text).unwrap();
    assert_eq!(entry_of(&back, "a"), &num(1));
}

#[test]
fn json_to_toon_translates() {
    let text = json_to_toon("{\"age\": 30, \"name\": \"Alice\"}", None, None).unwrap();
    let lines: Vec<&str> = text.lines().collect();
    assert!(lines.contains(&"age: 30"));
    assert!(lines.contains(&"name: Alice"));
}

#[test]
fn json_to_toon_rejects_bad_json() {
    let e = json_to_toon("{not json", None, None).unwrap_err();
    assert_eq!(e.kind, ExceptionKind::Toon);
    assert!(e.message.starts_with("Invalid JSON: "));
}

#[test]
fn toon_to_json_translates() {
    let json = toon_to_json("a: 1", false, None).unwrap();
    assert_eq!(json, "{\"a\":1}");
    let pretty = toon_to_json("a: 1", true, None).unwrap();
    assert!(pretty.contains('\n'));
    assert!(pretty.contains("\"a\": 1"));
}

#[test]
fn encode_batch_preserves_order() {
    let rows = vec![
        dict(vec![("id", num(1)), ("name", s("Alice"))]),
        dict(vec![("id", num(2)), ("name", s("Bob"))]),
        dict(vec![("id", num(3)), ("name", s("Carol"))]),
    ];
    let batch = encode_batch(&rows, None, None).unwrap();
    assert_eq!(batch.len(), 3);
    for (i, row) in rows.iter().enumerate() {
        assert_eq!(batch[i], encode(row, None, None).unwrap());
    }
}

#[test]
fn encode_batch_two_records() {
    let rows = vec![
        dict(vec![("id", num(1)), ("name", s("Alice"))]),
        dict(vec![("id", num(2)), ("name", s("Bob"))]),
    ];
    let batch = encode_batch(&rows, None, None).unwrap();
    assert_eq!(batch.len(), 2);
    let first = decode(&batch[0], None, None).unwrap();
    let second = decode(&batch[1], None, None).unwrap();
    assert_eq!(entry_of(&first, "id"), &num(1));
    assert_eq!(entry_of(&first, "name"), &s("Alice"));
    assert_eq!(entry_of(&second, "id"), &num(2));
    assert_eq!(entry_of(&second, "name"), &s("Bob"));
}

#[test]
fn batch_fails_as_a_whole() {
    let rows = vec![dict(vec![("ok", num(1))]), HostValue::Float(HostFloat::Nan)];
    let e = encode_batch(&rows, None, None).unwrap_err();
    assert_eq!(e.kind, ExceptionKind::Value);
    assert_eq!(e.message, "Invalid float value (NaN or Infinity)");
}

#[test]
fn decode_batch_preserves_order() {
    let texts = vec![String::from("a: 1"), String::from("a: 2")];
    let batch = decode_batch(&texts, None, None).unwrap();
    assert_eq!(batch.len(), 2);
    assert_eq!(entry_of(&batch[0], "a"), &num(1));
    assert_eq!(entry_of(&batch[1], "a"), &num(2));
}

#[test]
fn validate_reports_and_never_raises() {
    assert!(validate(&dict(vec![("a", num(1))]), None));
    assert!(!validate(&HostValue::Float(HostFloat::Nan), None));
    assert!(!validate(&HostValue::Other(String::from("socket")), None));
    assert!(!validate(
        &HostValue::List(vec![HostValue::Float(HostFloat::Infinity)]),
        None
    ));
    assert!(validate(&HostValue::Null, None));
}

#[test]
fn syntax_error_message_embeds_line() {
    let e = convert_toon_error(&CodecError::Syntax {
        line: 12,
        message: String::from("unexpected delimiter"),
    });
    assert_eq!(e.kind, ExceptionKind::ToonSyntax);
    assert_eq!(e.message, "Line 12: unexpected delimiter");
    assert!(e.is_syntax_error());
    assert!(e.is_toon_error());
}

#[test]
fn error_mapper_kinds() {
    let base = convert_toon_error(&CodecError::Message(String::from("boom")));
    assert_eq!(base.kind, ExceptionKind::Toon);
    assert_eq!(base.message, "boom");
    let io = convert_toon_error(&CodecError::Io(String::from("pipe closed")));
    assert_eq!(io.kind, ExceptionKind::ToonIo);
    assert_eq!(io.message, "pipe closed");
    let json = convert_toon_error(&CodecError::Json(String::from("eof")));
    assert_eq!(json.kind, ExceptionKind::Toon);
    assert_eq!(json.message, "JSON error: eof");
}

#[test]
fn decode_garbage_is_codec_error() {
    let e = decode("items[3]: a,b", None, Some(true)).unwrap_err();
    assert!(e.is_toon_error());
}

#[test]
fn empty_values_encode() {
    assert!(validate(&dict(vec![]), None));
    let text = encode(&dict(vec![]), None, None).unwrap();
    assert_eq!(text.trim(), "");
}

#[test]
fn empty_batches() {
    assert_eq!(encode_batch(&vec![], None, None).unwrap(), Vec::<String>::new());
    assert_eq!(decode_batch(&vec![], None, None).unwrap(), Vec::<HostValue>::new());
}

#[test]
fn encode_names_unsupported_kind() {
    let e = encode(&HostValue::Other(String::from("bytearray")), None, None).unwrap_err();
    assert_eq!(e.kind, ExceptionKind::Value);
    assert_eq!(e.message, "Cannot convert type 'bytearray' to TOON format");
}

#[test]
fn large_unsigned_survives_encode() {
    let v = dict(vec![("n", num(u64::MAX as i128))]);
    let text = encode(&v, None, None).unwrap();
    assert!(text.contains("18446744073709551615"));
    let back = decode(&text, None, None).unwrap();
    assert_eq!(entry_of(&back, "n"), &num(u64::MAX as i128));
}
