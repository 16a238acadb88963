use obsidian_mcp_server::json::Json;

fn round_trip(line: &str) -> String {
    Json::parse(line).expect("the line must parse").to_text()
}

#[test]
fn scalars_round_trip() {
    assert_eq!(round_trip("null"), "null");
    assert_eq!(round_trip("true"), "true");
    assert_eq!(round_trip("false"), "false");
    assert_eq!(round_trip("0"), "0");
    assert_eq!(round_trip("-12"), "-12");
    assert_eq!(round_trip("3.25e-2"), "3.25e-2");
    assert_eq!(round_trip("\"hi\""), "\"hi\"");
}

#[test]
fn containers_round_trip_compactly() {
    assert_eq!(round_trip("[]"), "[]");
    assert_eq!(round_trip("{}"), "{}");
    assert_eq!(round_trip(" [ 1 , \"a\" , [ true ] ] "), "[1,\"a\",[true]]");
    assert_eq!(
        round_trip("{ \"a\" : 1, \"b\" : { \"c\" : null } }"),
        "{\"a\":1,\"b\":{\"c\":null}}"
    );
}

#[test]
fn string_escapes_are_decoded_and_reencoded() {
    assert_eq!(round_trip("\"a\\nb\""), "\"a\\nb\"");
    assert_eq!(round_trip("\"q\\\"q\""), "\"q\\\"q\"");
    assert_eq!(round_trip("\"s\\\\s\""), "\"s\\\\s\"");
    // A solidus escape is legal on the way in and plain on the way out.
    assert_eq!(round_trip("\"a\\/b\""), "\"a/b\"");
    // A hex escape decodes to the character it names.
    assert_eq!(round_trip("\"\\u0041\""), "\"A\"");
    match Json::parse("\"\\u0041\"") {
        Some(Json::Str(s)) => assert_eq!(s, "A"),
        _ => panic!("expected a string"),
    }
}

#[test]
fn malformed_lines_are_refused() {
    assert!(Json::parse("").is_none());
    assert!(Json::parse("{").is_none());
    assert!(Json::parse("tru").is_none());
    assert!(Json::parse("01").is_none());
    assert!(Json::parse("1.").is_none());
    assert!(Json::parse("\"unterminated").is_none());
    assert!(Json::parse("[1,]").is_none());
    assert!(Json::parse("{\"a\"}").is_none());
    assert!(Json::parse("{\"a\":1,}").is_none());
    assert!(Json::parse("null null").is_none());
    assert!(Json::parse("\"bad \\u срgte\"").is_none());
    assert!(Json::parse("\"high half \\uD834\"").is_none());
}

#[test]
fn non_ascii_text_passes_through() {
    assert_eq!(round_trip("\"über\""), "\"über\"");
}

#[test]
fn object_fields_are_found_by_key() {
    let doc = Json::parse("{\"a\":1,\"b\":\"x\"}").unwrap();
    assert!(doc.is_object());
    assert!(matches!(doc.get("a"), Some(Json::Num(_))));
    match doc.get("b") {
        Some(j) => match j.as_string() {
            Some(s) => assert_eq!(s, "x"),
            None => panic!("expected a string"),
        },
        None => panic!("field must be present"),
    }
    assert!(doc.get("c").is_none());
}

#[test]
fn control_characters_are_escaped_on_output() {
    let doc = Json::Str("a\tb\u{1}".to_string());
    assert_eq!(doc.to_text(), "\"a\\tb\\u0001\"");
}

#[test]
fn deep_nesting_past_the_limit_is_refused() {
    let mut line = String::new();
    for _ in 0..200 {
        line.push('[');
    }
    for _ in 0..200 {
        line.push(']');
    }
    assert!(Json::parse(&line).is_none());

    let mut shallow = String::new();
    for _ in 0..20 {
        shallow.push('[');
    }
    for _ in 0..20 {
        shallow.push(']');
    }
    assert!(Json::parse(&shallow).is_some());
}
