use proton_launcher::json::{parse_document, JsonValue};

fn b(s: &str) -> Vec<u8> {
    s.as_bytes().to_vec()
}

#[test]
fn parses_scalars() {
    assert_eq!(parse_document(&b("null")), Some(JsonValue::Null));
    assert_eq!(parse_document(&b("true")), Some(JsonValue::Bool(true)));
    assert_eq!(parse_document(&b("false")), Some(JsonValue::Bool(false)));
    assert_eq!(parse_document(&b("42")), Some(JsonValue::Int(42)));
    assert_eq!(parse_document(&b("-7")), Some(JsonValue::Int(-7)));
    assert_eq!(
        parse_document(&b("\"hi\"")),
        Some(JsonValue::Str(b("hi")))
    );
}

#[test]
fn parses_nested_structures_with_whitespace() {
    let text = b(" { \"a\" : [ 1 , \"x\" , { } ] , \"b\" : null } ");
    let v = parse_document(&text).unwrap();
    assert_eq!(
        v,
        JsonValue::Obj(vec![
            (
                b("a"),
                JsonValue::Arr(vec![
                    JsonValue::Int(1),
                    JsonValue::Str(b("x")),
                    JsonValue::Obj(vec![]),
                ])
            ),
            (b("b"), JsonValue::Null),
        ])
    );
}

#[test]
fn decodes_string_escapes() {
    let v = parse_document(&b("\"a\\n\\t\\\\\\\"\\u0041\"")).unwrap();
    assert_eq!(v, JsonValue::Str(b("a\n\t\\\"A")));
}

#[test]
fn fractional_numbers_become_the_float_marker() {
    assert_eq!(parse_document(&b("1.5")), Some(JsonValue::Float));
    assert_eq!(parse_document(&b("2e10")), Some(JsonValue::Float));
    // beyond i64
    assert_eq!(
        parse_document(&b("99999999999999999999999")),
        Some(JsonValue::Float)
    );
}

#[test]
fn rejects_malformed_documents() {
    assert_eq!(parse_document(&b("")), None);
    assert_eq!(parse_document(&b("{")), None);
    assert_eq!(parse_document(&b("[1,]")), None);
    assert_eq!(parse_document(&b("{\"a\":1,}")), None);
    assert_eq!(parse_document(&b("true false")), None);
    assert_eq!(parse_document(&b("\"unterminated")), None);
}
