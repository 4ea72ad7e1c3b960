use toml_decoder::{DecodeError, DecodeErrorKind};

fn at(field: Option<&str>, kind: DecodeErrorKind) -> DecodeError {
    DecodeError { field: field.map(|f| f.to_string()), kind }
}

#[test]
fn mismatch_with_section_and_field() {
    let e = at(Some("a.b"), DecodeErrorKind::ExpectedType("table", "string"));
    assert_eq!(e.to_string(), "expected a section, but found a value of type `string` for the key `a.b`");
    let s = at(Some("a.b"), DecodeErrorKind::ExpectedType("section", "string"));
    assert_eq!(s.to_string(), "expected a section, but found a value of type `string` for the key `a.b`");
    let f = at(None, DecodeErrorKind::ExpectedType("integer", "section"));
    assert_eq!(f.to_string(), "expected a value of type `integer`, but found a section");
    let t = at(None, DecodeErrorKind::ExpectedType("string", "table"));
    assert_eq!(t.to_string(), "expected a value of type `string`, but found a section");
}

#[test]
fn expected_field_messages() {
    assert_eq!(at(None, DecodeErrorKind::ExpectedField(Some("table"))).to_string(), "expected a section");
    assert_eq!(
        at(None, DecodeErrorKind::ExpectedField(Some("integer"))).to_string(),
        "expected a value of type `integer`"
    );
    assert_eq!(at(Some("k"), DecodeErrorKind::ExpectedField(None)).to_string(), "expected a value for the key `k`");
}

#[test]
fn counted_messages() {
    assert_eq!(at(None, DecodeErrorKind::ExpectedMapKey(0)).to_string(), "expected at least 1 keys");
    assert_eq!(at(None, DecodeErrorKind::ExpectedMapKey(9)).to_string(), "expected at least 10 keys");
    assert_eq!(at(Some("xs"), DecodeErrorKind::ExpectedMapElement(2)).to_string(), "expected at least 3 elements for the key `xs`");
    assert_eq!(at(None, DecodeErrorKind::ExpectedMapElement(1234)).to_string(), "expected at least 1235 elements");
}

#[test]
fn fixed_messages() {
    assert_eq!(at(None, DecodeErrorKind::ApplicationError("out of range".to_string())).to_string(), "out of range");
    assert_eq!(at(None, DecodeErrorKind::NoEnumVariants).to_string(), "expected an enum variant to decode to");
    assert_eq!(at(None, DecodeErrorKind::NilTooLong).to_string(), "expected 0-length string");
    assert_eq!(at(None, DecodeErrorKind::SyntaxError).to_string(), "syntax error");
    assert_eq!(at(Some("x"), DecodeErrorKind::EndOfStream).to_string(), "end of stream for the key `x`");
}

#[test]
fn descriptions() {
    assert_eq!(at(None, DecodeErrorKind::ApplicationError("bad".to_string())).description(), "bad");
    assert_eq!(at(Some("k"), DecodeErrorKind::ExpectedField(None)).description(), "expected a field");
    assert_eq!(at(None, DecodeErrorKind::ExpectedType("a", "b")).description(), "expected a type");
    assert_eq!(at(None, DecodeErrorKind::ExpectedMapKey(1)).description(), "expected a map key");
    assert_eq!(at(None, DecodeErrorKind::ExpectedMapElement(1)).description(), "expected a map element");
    assert_eq!(at(None, DecodeErrorKind::NoEnumVariants).description(), "no enum variants to decode to");
    assert_eq!(at(None, DecodeErrorKind::NilTooLong).description(), "nonzero length string representing nil");
    assert_eq!(at(None, DecodeErrorKind::SyntaxError).description(), "syntax error");
    assert_eq!(at(None, DecodeErrorKind::EndOfStream).description(), "end of stream");
}
