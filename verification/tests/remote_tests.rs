use wordle_guesser::error::SessionError;
use wordle_guesser::player::Guess;
use wordle_guesser::player::Indicator;
use wordle_guesser::remote::interpret_hello;
use wordle_guesser::remote::interpret_reply;
use wordle_guesser::remote::parse_guess;
use wordle_guesser::remote::parse_guess_response;
use wordle_guesser::remote::parse_guesses;
use wordle_guesser::remote::parse_hello_response;
use wordle_guesser::remote::parse_marks;
use wordle_guesser::remote::parse_response;
use wordle_guesser::remote::read_type;
use wordle_guesser::remote::ContentType;
use wordle_guesser::remote::ResponseType;
use wordle_guesser::wire::decode;
use wordle_guesser::wire::lookup;
use wordle_guesser::wire::Json;
use wordle_guesser::wire::JsonKind;

fn protocol(text: &str) -> SessionError {
    SessionError::Protocol(text.to_string())
}

fn missing(key: &str) -> SessionError {
    SessionError::MissingField(key.to_string())
}

fn marks_in(line: &str) -> Json {
    let doc = decode(line).unwrap();
    match lookup(&doc, "marks") {
        Some(value) => Json { shown: value.shown.clone(), kind: copy_kind(&value.kind) },
        None => panic!("no marks"),
    }
}

fn copy_kind(kind: &JsonKind) -> JsonKind {
    match kind {
        JsonKind::Null => JsonKind::Null,
        JsonKind::Text => JsonKind::Text,
        JsonKind::Number(small) => JsonKind::Number(*small),
        JsonKind::Boolean(flag) => JsonKind::Boolean(*flag),
        JsonKind::Array(items) => JsonKind::Array(
            items.iter().map(|item| Json { shown: item.shown.clone(), kind: copy_kind(&item.kind) }).collect(),
        ),
        JsonKind::Object(entries) => JsonKind::Object(
            entries
                .iter()
                .map(|(key, item)| (key.clone(), Json { shown: item.shown.clone(), kind: copy_kind(&item.kind) }))
                .collect(),
        ),
    }
}

#[test]
fn response_types_by_wire_name() {
    assert_eq!(ResponseType::from("start"), ResponseType::START);
    assert_eq!(ResponseType::from("retry"), ResponseType::RETRY);
    assert_eq!(ResponseType::from("bye"), ResponseType::BYE);
    assert_eq!(ResponseType::from("error"), ResponseType::ERROR);
    assert_eq!(ResponseType::from("Start"), ResponseType::UNKNOWN("Start".to_string()));
    assert_eq!(ResponseType::from(""), ResponseType::UNKNOWN(String::new()));
}

#[test]
fn hello_reply_gives_the_session_id() {
    assert_eq!(parse_hello_response("{\"type\":\"start\",\"id\":\"X\"}\n"), Ok("X".to_string()));
    assert_eq!(parse_hello_response("{\"id\":\"abc-1\",\"type\":\"start\"}"), Ok("abc-1".to_string()));
}

#[test]
fn hello_reply_failures() {
    assert_eq!(
        parse_hello_response("{\"type\":\"error\",\"message\":\"bad word\"}"),
        Err(SessionError::Server("bad word".to_string()))
    );
    assert_eq!(parse_hello_response("{\"type\":\"error\"}"), Err(SessionError::Server("null".to_string())));
    assert_eq!(
        parse_hello_response("{\"type\":\"retry\",\"id\":\"X\",\"guesses\":[]}"),
        Err(protocol("unexpected type during handshake"))
    );
    assert_eq!(parse_hello_response("{\"type\":\"bye\"}"), Err(protocol("unexpected type during handshake")));
    assert_eq!(parse_hello_response("{\"type\":\"hi\"}"), Err(protocol("unexpected type during handshake")));
    assert_eq!(parse_hello_response("{\"id\":\"X\"}"), Err(missing("type")));
    assert_eq!(parse_hello_response("{\"type\":\"start\"}"), Err(missing("id")));
    assert_eq!(parse_hello_response("{\"type\":\"start\",\"id\":null}"), Err(missing("id")));
    assert_eq!(parse_hello_response("not json"), Err(SessionError::MalformedMessage));
    assert_eq!(parse_hello_response("[\"start\"]"), Err(SessionError::MalformedMessage));
}

#[test]
fn response_head() {
    let doc = decode("{\"type\":\"retry\",\"id\":\"X\"}").unwrap();
    assert_eq!(read_type(&doc), Ok(ResponseType::RETRY));
    assert_eq!(parse_response(&doc), Ok((ResponseType::RETRY, "X".to_string())));
    assert_eq!(interpret_hello(&doc), Err(protocol("unexpected type during handshake")));
    let doc = decode("{\"type\":\"error\",\"message\":\"no\"}").unwrap();
    assert_eq!(parse_response(&doc), Err(SessionError::Server("no".to_string())));
    let doc = decode("{\"type\":\"what\",\"id\":\"X\"}").unwrap();
    assert_eq!(parse_response(&doc), Err(protocol("unexpected type while guessing")));
    let doc = decode("{\"type\":\"bye\"}").unwrap();
    assert_eq!(parse_response(&doc), Err(missing("id")));
    let doc = decode("{\"id\":\"X\"}").unwrap();
    assert_eq!(parse_response(&doc), Err(missing("type")));
}

#[test]
fn marks_decode_to_indicators() {
    let marks = marks_in("{\"marks\":[2,0,1,2,0]}");
    assert_eq!(
        parse_marks(&marks, 5),
        Ok(vec![Indicator::CORRECT, Indicator::ABSENT, Indicator::INCORRECT, Indicator::CORRECT, Indicator::ABSENT])
    );
    assert_eq!(parse_marks(&marks_in("{\"marks\":[]}"), 0), Ok(vec![]));
}

#[test]
fn marks_outside_the_three_values_are_invalid() {
    assert_eq!(parse_marks(&marks_in("{\"marks\":[0,3,1]}"), 3), Err(SessionError::InvalidIndicator));
    assert_eq!(parse_marks(&marks_in("{\"marks\":[0,-1,1]}"), 3), Err(SessionError::InvalidIndicator));
    assert_eq!(parse_marks(&marks_in("{\"marks\":[0,1.5,1]}"), 3), Err(SessionError::InvalidIndicator));
    assert_eq!(parse_marks(&marks_in("{\"marks\":[0,\"1\",1]}"), 3), Err(SessionError::InvalidIndicator));
    assert_eq!(parse_marks(&marks_in("{\"marks\":[0,1,300]}"), 3), Err(SessionError::InvalidIndicator));
    assert_eq!(parse_marks(&marks_in("{\"marks\":[0,1,null]}"), 3), Err(SessionError::InvalidIndicator));
    assert_eq!(parse_marks(&marks_in("{\"marks\":[7]}"), 3), Err(SessionError::InvalidIndicator));
}

#[test]
fn marks_of_another_length_are_a_mismatch() {
    assert_eq!(parse_marks(&marks_in("{\"marks\":[0,1]}"), 3), Err(SessionError::LengthMismatch));
    assert_eq!(parse_marks(&marks_in("{\"marks\":[0,1,2,0]}"), 3), Err(SessionError::LengthMismatch));
    assert_eq!(parse_marks(&marks_in("{\"marks\":[]}"), 1), Err(SessionError::LengthMismatch));
}

#[test]
fn marks_that_are_no_array_are_malformed() {
    assert_eq!(parse_marks(&marks_in("{\"marks\":\"012\"}"), 3), Err(SessionError::MalformedMessage));
    assert_eq!(parse_marks(&marks_in("{\"marks\":2}"), 1), Err(SessionError::MalformedMessage));
}

#[test]
fn guess_decodes_with_its_marks() {
    let doc = decode("{\"word\":\"hills\",\"marks\":[2,0,2,2,0]}").unwrap();
    assert_eq!(
        parse_guess(&doc),
        Ok(Guess {
            word: "hills".to_string(),
            marks: vec![Indicator::CORRECT, Indicator::ABSENT, Indicator::CORRECT, Indicator::CORRECT, Indicator::ABSENT],
        })
    );
    let doc = decode("{\"word\":\"h\u{e9}\",\"marks\":[2,0]}").unwrap();
    assert_eq!(
        parse_guess(&doc),
        Ok(Guess { word: "h\u{e9}".to_string(), marks: vec![Indicator::CORRECT, Indicator::ABSENT] })
    );
}

#[test]
fn guess_failures() {
    assert_eq!(parse_guess(&decode("{\"marks\":[2]}").unwrap()), Err(missing("word")));
    assert_eq!(parse_guess(&decode("{\"word\":\"a\"}").unwrap()), Err(missing("marks")));
    assert_eq!(parse_guess(&decode("{\"word\":\"ab\",\"marks\":[2]}").unwrap()), Err(SessionError::LengthMismatch));
    assert_eq!(parse_guess(&decode("{\"word\":\"ab\",\"marks\":[2,5]}").unwrap()), Err(SessionError::InvalidIndicator));
    assert_eq!(parse_guess(&decode("{\"word\":\"ab\",\"marks\":[5]}").unwrap()), Err(SessionError::InvalidIndicator));
}

#[test]
fn guesses_decode_in_order_and_fail_on_the_first_bad_one() {
    let doc = decode("{\"marks\":[{\"word\":\"a\",\"marks\":[1]},{\"word\":\"b\",\"marks\":[2]}]}").unwrap();
    let list = lookup(&doc, "marks").unwrap();
    assert_eq!(
        parse_guesses(list),
        Ok(vec![
            Guess { word: "a".to_string(), marks: vec![Indicator::INCORRECT] },
            Guess { word: "b".to_string(), marks: vec![Indicator::CORRECT] },
        ])
    );
    let doc = decode("{\"marks\":[{\"word\":\"a\",\"marks\":[1]},{\"word\":\"b\"},{\"marks\":[1]}]}").unwrap();
    assert_eq!(parse_guesses(lookup(&doc, "marks").unwrap()), Err(missing("marks")));
    let doc = decode("{\"marks\":{\"word\":\"a\"}}").unwrap();
    assert_eq!(parse_guesses(lookup(&doc, "marks").unwrap()), Err(SessionError::MalformedMessage));
    let doc = decode("{\"marks\":[]}").unwrap();
    assert_eq!(parse_guesses(lookup(&doc, "marks").unwrap()), Ok(vec![]));
}

#[test]
fn reply_with_the_flag() {
    assert_eq!(
        parse_guess_response("{\"type\":\"bye\",\"id\":\"X\",\"flag\":\"FLAG123\"}\n", "X"),
        Ok(ContentType::FLAG("FLAG123".to_string()))
    );
}

#[test]
fn reply_with_the_guesses_so_far() {
    let line = "{\"type\":\"retry\",\"id\":\"X\",\"guesses\":[{\"word\":\"hills\",\"marks\":[2,0,2,2,0]}]}\n";
    assert_eq!(
        parse_guess_response(line, "X"),
        Ok(ContentType::MATCHES(vec![Guess {
            word: "hills".to_string(),
            marks: vec![Indicator::CORRECT, Indicator::ABSENT, Indicator::CORRECT, Indicator::CORRECT, Indicator::ABSENT],
        }]))
    );
}

#[test]
fn reply_failures() {
    assert_eq!(
        parse_guess_response("{\"type\":\"bye\",\"id\":\"Y\",\"flag\":\"F\"}", "X"),
        Err(SessionError::SessionIdMismatch)
    );
    assert_eq!(
        parse_guess_response("{\"type\":\"error\",\"message\":\"bad word\"}", "X"),
        Err(SessionError::Server("bad word".to_string()))
    );
    assert_eq!(
        parse_guess_response("{\"type\":\"start\",\"id\":\"X\"}", "X"),
        Err(protocol("unexpected type while guessing"))
    );
    assert_eq!(
        parse_guess_response("{\"type\":\"start\",\"id\":\"Y\"}", "X"),
        Err(SessionError::SessionIdMismatch)
    );
    assert_eq!(
        parse_guess_response("{\"type\":\"nope\",\"id\":\"Y\"}", "X"),
        Err(protocol("unexpected type while guessing"))
    );
    assert_eq!(parse_guess_response("{\"type\":\"bye\",\"id\":\"X\"}", "X"), Err(missing("flag")));
    assert_eq!(parse_guess_response("{\"type\":\"retry\",\"id\":\"X\"}", "X"), Err(missing("guesses")));
    assert_eq!(parse_guess_response("{\"type\":\"retry\",\"flag\":\"F\"}", "X"), Err(missing("id")));
    assert_eq!(
        parse_guess_response("{\"type\":\"retry\",\"id\":\"X\",\"guesses\":\"none\"}", "X"),
        Err(SessionError::MalformedMessage)
    );
    assert_eq!(
        parse_guess_response("{\"type\":\"retry\",\"id\":\"X\",\"guesses\":[{\"word\":\"ab\",\"marks\":[0,9]}]}", "X"),
        Err(SessionError::InvalidIndicator)
    );
    assert_eq!(
        parse_guess_response("{\"type\":\"retry\",\"id\":\"X\",\"guesses\":[{\"word\":\"ab\",\"marks\":[0]}]}", "X"),
        Err(SessionError::LengthMismatch)
    );
    assert_eq!(parse_guess_response("{\"type\":\"bye\"", "X"), Err(SessionError::MalformedMessage));
    let doc = decode("{\"type\":\"bye\",\"id\":\"X\",\"flag\":\"F\"}").unwrap();
    assert_eq!(interpret_reply(&doc, "X"), Ok(ContentType::FLAG("F".to_string())));
    assert_eq!(interpret_reply(&doc, "x"), Err(SessionError::SessionIdMismatch));
}
