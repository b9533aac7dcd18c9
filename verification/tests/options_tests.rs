use toonpy::build_options;
use toonpy::Delimiter;
use toonpy::ExceptionKind;
use toonpy::Options;

#[test]
fn build_options_accepts_each_token() {
    assert_eq!(
        build_options(Some("comma"), None).unwrap(),
        Options { delimiter: Delimiter::Comma, strict: false }
    );
    assert_eq!(
        build_options(Some("tab"), None).unwrap(),
        Options { delimiter: Delimiter::Tab, strict: false }
    );
    assert_eq!(
        build_options(Some("pipe"), Some(true)).unwrap(),
        Options { delimiter: Delimiter::Pipe, strict: true }
    );
}

#[test]
fn build_options_defaults() {
    let o = build_options(None, None).unwrap();
    assert_eq!(o.delimiter, Delimiter::Comma);
    assert!(!o.strict);
    assert_eq!(o, Options::default());
}

#[test]
fn build_options_rejects_unknown_token() {
    let e = build_options(Some("invalid"), None).unwrap_err();
    assert_eq!(e.kind, ExceptionKind::Value);
    assert_eq!(
        e.message,
        "Invalid delimiter 'invalid'. Must be 'comma', 'tab', or 'pipe'"
    );
    assert!(e.is_validation_error());
    assert!(!e.is_toon_error());
}

#[test]
fn options_new_and_accessors() {
    let mut o = Options::new(Some("pipe"), Some(true)).unwrap();
    assert_eq!(o.delimiter(), "pipe");
    assert!(o.strict());
    o.set_strict(false);
    assert!(!o.strict());
    o.set_delimiter("tab").unwrap();
    assert_eq!(o.delimiter(), "tab");
    let err = o.set_delimiter("semicolon").unwrap_err();
    assert_eq!(err.kind, ExceptionKind::Value);
    assert_eq!(o.delimiter(), "tab");
}

#[test]
fn options_repr() {
    let o = Options::new(Some("comma"), Some(false)).unwrap();
    assert_eq!(o.__repr__(), "Options(delimiter='comma', strict=false)");
    assert_eq!(o.__str__(), "Options(delimiter='comma', strict=false)");
    let o2 = Options::new(Some("tab"), Some(true)).unwrap();
    assert_eq!(o2.__repr__(), "Options(delimiter='tab', strict=true)");
}

#[test]
fn options_eq_and_hash() {
    let a = Options::new(Some("pipe"), Some(false)).unwrap();
    let b = Options::new(Some("pipe"), Some(false)).unwrap();
    let c = Options::new(Some("pipe"), Some(true)).unwrap();
    assert!(a.__eq__(&b));
    assert!(!a.__eq__(&c));
    assert_eq!(a.__hash__(), b.__hash__());
    assert_ne!(a.__hash__(), c.__hash__());
    assert_eq!(Options::default().__hash__(), 0);
    assert_eq!(c.__hash__(), 5);
}

#[test]
fn delimiter_token_constants() {
    assert_eq!(toonpy::COMMA, "comma");
    assert_eq!(toonpy::TAB, "tab");
    assert_eq!(toonpy::PIPE, "pipe");
}
