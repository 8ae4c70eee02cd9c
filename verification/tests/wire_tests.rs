use wordle_guesser::error::SessionError;
use wordle_guesser::text::chars_of;
use wordle_guesser::text::has_char;
use wordle_guesser::text::push_chars;
use wordle_guesser::text::same_text;
use wordle_guesser::wire::decode;
use wordle_guesser::wire::extract_json_field;
use wordle_guesser::wire::frame_line;
use wordle_guesser::wire::is_readable;
use wordle_guesser::wire::lookup;
use wordle_guesser::wire::prepare_message;
use wordle_guesser::wire::text_of_field;
use wordle_guesser::wire::Json;
use wordle_guesser::wire::JsonKind;

fn fields(list: &[(&str, &str)]) -> Vec<(String, String)> {
    list.iter().map(|(k, v)| (k.to_string(), v.to_string())).collect()
}

fn text(s: &str) -> Json {
    Json { shown: s.to_string(), kind: JsonKind::Text }
}

#[test]
fn message_is_one_json_object_and_a_newline() {
    let bytes = prepare_message(fields(&[("type", "hello"), ("northeastern_username", "bob")]));
    assert_eq!(bytes, b"{\"type\":\"hello\",\"northeastern_username\":\"bob\"}\n".to_vec());
}

#[test]
fn line_ends_with_one_newline() {
    assert_eq!(frame_line("{}".to_string()), b"{}\n".to_vec());
    assert_eq!(frame_line(String::new()), b"\n".to_vec());
    assert_eq!(frame_line("\u{e9}".to_string()), vec![0xc3, 0xa9, b'\n']);
}

#[test]
fn message_escapes_what_json_escapes() {
    let bytes = prepare_message(fields(&[("word", "a\"b\\c\n")]));
    assert_eq!(bytes, b"{\"word\":\"a\\\"b\\\\c\\n\"}\n".to_vec());
    assert_eq!(prepare_message(Vec::new()), b"{}\n".to_vec());
}

#[test]
fn decode_reads_an_object() {
    let doc = decode("{\"type\":\"start\",\"id\":\"X\"}\n").unwrap();
    let expected = Json {
        shown: "{\"type\":\"start\",\"id\":\"X\"}".to_string(),
        kind: JsonKind::Object(vec![("type".to_string(), text("start")), ("id".to_string(), text("X"))]),
    };
    assert_eq!(doc, expected);
}

#[test]
fn decode_reads_nested_values() {
    let doc = decode("{\"a\":[0,2,300,1.5,-1],\"b\":null,\"c\":true,\"d\":{\"e\":\"f\"}}").unwrap();
    let a = lookup(&doc, "a").unwrap();
    let number = |shown: &str, small: Option<u8>| Json { shown: shown.to_string(), kind: JsonKind::Number(small) };
    assert_eq!(
        a.kind,
        JsonKind::Array(vec![
            number("0", Some(0)),
            number("2", Some(2)),
            number("300", None),
            number("1.5", None),
            number("-1", None),
        ])
    );
    assert_eq!(a.shown, "[0,2,300,1.5,-1]");
    assert_eq!(lookup(&doc, "b"), Some(&Json { shown: "null".to_string(), kind: JsonKind::Null }));
    assert_eq!(lookup(&doc, "c"), Some(&Json { shown: "true".to_string(), kind: JsonKind::Boolean(true) }));
    assert_eq!(lookup(lookup(&doc, "d").unwrap(), "e"), Some(&text("f")));
    assert_eq!(lookup(&doc, "e"), None);
}

#[test]
fn decode_refuses_what_is_no_json() {
    assert_eq!(decode("{\"type\":"), Err(SessionError::MalformedMessage));
    assert_eq!(decode("hello"), Err(SessionError::MalformedMessage));
    assert_eq!(decode(""), Err(SessionError::MalformedMessage));
}

#[test]
fn decode_refuses_what_is_no_object() {
    assert_eq!(decode("[1,2]"), Err(SessionError::MalformedMessage));
    assert_eq!(decode("\"start\""), Err(SessionError::MalformedMessage));
    assert_eq!(decode("7"), Err(SessionError::MalformedMessage));
    assert_eq!(decode("null"), Err(SessionError::MalformedMessage));
}

#[test]
fn decode_of_encode_gives_the_fields_back() {
    let given = fields(&[("type", "guess"), ("id", "X \"q\" \u{e9}"), ("word", "hello")]);
    let line = String::from_utf8(prepare_message(given.clone())).unwrap();
    let doc = decode(&line).unwrap();
    for (key, value) in given.iter() {
        assert_eq!(extract_json_field(&doc, key).unwrap(), &text(value));
    }
    match &doc.kind {
        JsonKind::Object(entries) => assert_eq!(entries.len(), given.len()),
        _ => panic!("not an object"),
    }
}

#[test]
fn decode_of_encode_does_not_depend_on_field_order() {
    let one = fields(&[("type", "guess"), ("id", "X"), ("word", "hello")]);
    let other = fields(&[("word", "hello"), ("type", "guess"), ("id", "X")]);
    let first = decode(&String::from_utf8(prepare_message(one.clone())).unwrap()).unwrap();
    let second = decode(&String::from_utf8(prepare_message(other)).unwrap()).unwrap();
    for (key, _) in one.iter() {
        assert_eq!(extract_json_field(&first, key), extract_json_field(&second, key));
    }
}

#[test]
fn missing_and_null_fields_are_reported_by_key() {
    let doc = decode("{\"id\":null,\"type\":\"start\"}").unwrap();
    assert_eq!(extract_json_field(&doc, "id"), Err(SessionError::MissingField("id".to_string())));
    assert_eq!(extract_json_field(&doc, "flag"), Err(SessionError::MissingField("flag".to_string())));
    assert_eq!(extract_json_field(&doc, "type"), Ok(&text("start")));
    assert_eq!(extract_json_field(&text("start"), "type"), Err(SessionError::MissingField("type".to_string())));
}

#[test]
fn text_of_a_field() {
    let doc = decode("{\"message\":\"bad word\",\"n\":12,\"l\":[1,\"a\"]}").unwrap();
    assert_eq!(text_of_field(&doc, "message"), "bad word");
    assert_eq!(text_of_field(&doc, "n"), "12");
    assert_eq!(text_of_field(&doc, "l"), "[1,\"a\"]");
    assert_eq!(text_of_field(&doc, "other"), "null");
}

#[test]
fn text_helpers() {
    let mut out = String::from("ab");
    push_chars(&mut out, &vec!['c', '\u{e9}']);
    assert_eq!(out, "abc\u{e9}");
    assert_eq!(chars_of("h\u{e9}llo"), vec!['h', '\u{e9}', 'l', 'l', 'o']);
    assert!(same_text("abc", "abc"));
    assert!(!same_text("abc", "abd"));
    assert!(has_char(&vec!['a', 'b'], 'b'));
    assert!(!has_char(&vec!['a', 'b'], 'c'));
}

#[test]
fn error_messages() {
    assert_eq!(SessionError::Server("bad word".to_string()).message(), "server error: bad word");
    assert_eq!(SessionError::MissingField("id".to_string()).message(), "missing field: id");
    assert_eq!(SessionError::Transport("closed".to_string()).message(), "transport failure: closed");
    assert_eq!(SessionError::Protocol("x".to_string()).message(), "protocol error: x");
    assert_eq!(SessionError::MalformedMessage.message(), "malformed message");
    assert_eq!(SessionError::InvalidIndicator.message(), "invalid indicator");
    assert_eq!(SessionError::LengthMismatch.message(), "length mismatch");
    assert_eq!(SessionError::SessionIdMismatch.message(), "session id mismatch");
    assert_eq!(SessionError::NoCandidates.message(), "no candidates left");
    assert_eq!(SessionError::InvalidPattern.message(), "invalid pattern");
}

#[test]
fn a_key_set_twice_keeps_its_place_and_its_last_value() {
    let bytes = prepare_message(fields(&[("a", "1"), ("b", "2"), ("a", "3")]));
    assert_eq!(bytes, b"{\"a\":\"3\",\"b\":\"2\"}\n".to_vec());
    let bytes = prepare_message(fields(&[("a", "1"), ("a", "1")]));
    assert_eq!(bytes, b"{\"a\":\"1\"}\n".to_vec());
}

#[test]
fn runs_of_digits_up_to_the_limit_are_readable() {
    assert!(is_readable(""));
    assert!(is_readable("{\"marks\":[0,1,2]}"));
    assert!(is_readable(&"7".repeat(32767)));
    assert!(!is_readable(&"7".repeat(32768)));
    let split = format!("{}x{}", "1".repeat(32767), "2".repeat(32767));
    assert!(is_readable(&split));
    let late = format!("abc \u{e9} {}", "0".repeat(40000));
    assert!(!is_readable(&late));
}

#[test]
fn a_number_with_too_many_digits_is_refused_unread() {
    let line = format!("{{\"n\":0.{}}}", "0".repeat(40000));
    assert_eq!(decode(&line), Err(SessionError::MalformedMessage));
    let line = format!("{{\"n\":\"{}\"}}", "9".repeat(32768));
    assert_eq!(decode(&line), Err(SessionError::MalformedMessage));
    let line = format!("{{\"n\":\"{}\"}}", "9".repeat(32767));
    let doc = decode(&line).unwrap();
    assert_eq!(text_of_field(&doc, "n"), "9".repeat(32767));
    let line = format!("{{\"n\":0.{}1}}", "0".repeat(32000));
    assert!(decode(&line).is_ok());
}

#[test]
fn small_value_of_a_number() {
    let doc = decode("{\"a\":[2,2e0,2.0,-0,256,255,0,-1,1e2]}").unwrap();
    let small: Vec<Option<u8>> = match &lookup(&doc, "a").unwrap().kind {
        JsonKind::Array(items) => items
            .iter()
            .map(|item| match &item.kind {
                JsonKind::Number(small) => *small,
                _ => panic!("not a number"),
            })
            .collect(),
        _ => panic!("not an array"),
    };
    assert_eq!(small, vec![Some(2), Some(2), None, None, None, Some(255), Some(0), None, None]);
}
