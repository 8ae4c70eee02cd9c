use wordle_guesser::error::SessionError;
use wordle_guesser::player::Guess;
use wordle_guesser::player::Indicator;
use wordle_guesser::player::Player;
use wordle_guesser::session::check_lengths;
use wordle_guesser::session::on_hello;
use wordle_guesser::session::on_reply;
use wordle_guesser::session::play_round;
use wordle_guesser::session::Action;
use wordle_guesser::session::Event;
use wordle_guesser::session::Session;
use wordle_guesser::remote::ContentType;

fn words(list: &[&str]) -> Vec<String> {
    list.iter().map(|w| w.to_string()).collect()
}

fn line(text: &str) -> Event {
    Event::Line(text.to_string())
}

fn send(text: &str) -> Action {
    Action::Send(text.as_bytes().to_vec())
}

fn player() -> Player {
    Player {
        username: "bob".to_string(),
        word_list: words(&["hallo", "nothi", "adllk", "halls", "helll", "hello", "hills"]),
    }
}

fn after_handshake(id: &str) -> Session {
    let (session, _) = Session::new(player()).step(Event::Begin);
    let (session, _) = session.step(line(&format!("{{\"type\":\"start\",\"id\":\"{}\"}}\n", id)));
    session
}

#[test]
fn session_begins_with_the_greeting() {
    let session = Session::new(player());
    assert_eq!(session, Session::Init { username: "bob".to_string(), candidates: player().word_list });
    assert!(!session.is_done());
    let (session, action) = session.step(Event::Begin);
    assert_eq!(action, send("{\"type\":\"hello\",\"northeastern_username\":\"bob\"}\n"));
    assert_eq!(session, Session::AwaitStart { candidates: player().word_list });
}

#[test]
fn start_message_sets_the_id_and_sends_the_first_guess() {
    let (session, _) = Session::new(player()).step(Event::Begin);
    let (session, action) = session.step(line("{\"type\":\"start\",\"id\":\"X\"}\n"));
    assert_eq!(action, send("{\"type\":\"guess\",\"id\":\"X\",\"word\":\"hills\"}\n"));
    assert_eq!(
        session,
        Session::Guessing {
            id: "X".to_string(),
            candidates: words(&["hallo", "nothi", "adllk", "halls", "helll", "hello"]),
            word_length: 5,
        }
    );
}

#[test]
fn bye_after_handshake_ends_with_the_flag() {
    let session = after_handshake("X");
    let (session, action) = session.step(line("{\"type\":\"bye\",\"id\":\"X\",\"flag\":\"FLAG123\"}\n"));
    assert_eq!(action, Action::Stop);
    assert!(session.is_done());
    assert_eq!(session.outcome(), Some(Ok("FLAG123".to_string())));
}

#[test]
fn server_error_ends_the_session_in_either_phase() {
    let (session, _) = Session::new(player()).step(Event::Begin);
    let (session, action) = session.step(line("{\"type\":\"error\",\"message\":\"bad word\"}\n"));
    assert_eq!(action, Action::Stop);
    assert_eq!(session, Session::Done(Err(SessionError::Server("bad word".to_string()))));

    let (session, action) = after_handshake("X").step(line("{\"type\":\"error\",\"message\":\"bad word\"}\n"));
    assert_eq!(action, Action::Stop);
    assert_eq!(session.outcome(), Some(Err(SessionError::Server("bad word".to_string()))));
}

#[test]
fn retry_replaces_the_history_and_sends_the_next_guess() {
    let session = after_handshake("X");
    let retry = "{\"type\":\"retry\",\"id\":\"X\",\"guesses\":[{\"word\":\"hills\",\"marks\":[2,0,2,2,0]}]}\n";
    let (session, action) = session.step(line(retry));
    assert_eq!(action, send("{\"type\":\"guess\",\"id\":\"X\",\"word\":\"hello\"}\n"));
    assert_eq!(
        session,
        Session::Guessing { id: "X".to_string(), candidates: words(&["hallo", "helll"]), word_length: 5 }
    );
    let retry = "{\"type\":\"retry\",\"id\":\"X\",\"guesses\":[{\"word\":\"hills\",\"marks\":[2,0,2,2,0]},{\"word\":\"hello\",\"marks\":[2,0,2,2,2]}]}\n";
    let (session, action) = session.step(line(retry));
    assert_eq!(action, send("{\"type\":\"guess\",\"id\":\"X\",\"word\":\"hallo\"}\n"));
    assert_eq!(session, Session::Guessing { id: "X".to_string(), candidates: vec![], word_length: 5 });
    let (session, action) = session.step(line("{\"type\":\"bye\",\"id\":\"X\",\"flag\":\"F\"}"));
    assert_eq!(action, Action::Stop);
    assert_eq!(session.outcome(), Some(Ok("F".to_string())));
}

#[test]
fn running_out_of_words_ends_the_session() {
    let session = after_handshake("X");
    let retry = "{\"type\":\"retry\",\"id\":\"X\",\"guesses\":[{\"word\":\"hills\",\"marks\":[0,0,0,0,0]},{\"word\":\"zzzzz\",\"marks\":[2,2,2,2,2]}]}\n";
    let (session, action) = session.step(line(retry));
    assert_eq!(action, Action::Stop);
    assert_eq!(session.outcome(), Some(Err(SessionError::NoCandidates)));

    let empty = Player { username: "bob".to_string(), word_list: vec![] };
    let (session, _) = Session::new(empty).step(Event::Begin);
    let (session, action) = session.step(line("{\"type\":\"start\",\"id\":\"X\"}"));
    assert_eq!(action, Action::Stop);
    assert_eq!(session.outcome(), Some(Err(SessionError::NoCandidates)));
}

#[test]
fn reply_with_another_id_ends_the_session() {
    let (session, action) = after_handshake("X").step(line("{\"type\":\"bye\",\"id\":\"Y\",\"flag\":\"F\"}"));
    assert_eq!(action, Action::Stop);
    assert_eq!(session.outcome(), Some(Err(SessionError::SessionIdMismatch)));
}

#[test]
fn unexpected_types_end_the_session() {
    let (session, _) = Session::new(player()).step(Event::Begin);
    let (session, action) = session.step(line("{\"type\":\"bye\",\"id\":\"X\",\"flag\":\"F\"}"));
    assert_eq!(action, Action::Stop);
    assert_eq!(
        session.outcome(),
        Some(Err(SessionError::Protocol("unexpected type during handshake".to_string())))
    );
    let (session, action) = after_handshake("X").step(line("{\"type\":\"start\",\"id\":\"X\"}"));
    assert_eq!(action, Action::Stop);
    assert_eq!(
        session.outcome(),
        Some(Err(SessionError::Protocol("unexpected type while guessing".to_string())))
    );
}

#[test]
fn malformed_lines_end_the_session() {
    let (session, _) = Session::new(player()).step(Event::Begin);
    let (session, action) = session.step(line("hello there"));
    assert_eq!(action, Action::Stop);
    assert_eq!(session.outcome(), Some(Err(SessionError::MalformedMessage)));
    let (session, _) = after_handshake("X").step(line(""));
    assert_eq!(session.outcome(), Some(Err(SessionError::MalformedMessage)));
}

#[test]
fn history_of_another_word_length_ends_the_session() {
    let retry = "{\"type\":\"retry\",\"id\":\"X\",\"guesses\":[{\"word\":\"hill\",\"marks\":[2,0,2,2]}]}\n";
    let (session, action) = after_handshake("X").step(line(retry));
    assert_eq!(action, Action::Stop);
    assert_eq!(session.outcome(), Some(Err(SessionError::LengthMismatch)));
}

#[test]
fn guess_of_another_length_ends_the_session() {
    let (session, action) = play_round("X".to_string(), Vec::new(), words(&["hello", "hi"]), Some(5));
    assert_eq!(action, Action::Stop);
    assert_eq!(session.outcome(), Some(Err(SessionError::LengthMismatch)));
    let (session, action) = play_round("X".to_string(), Vec::new(), words(&["hello", "hi"]), None);
    assert_eq!(action, send("{\"type\":\"guess\",\"id\":\"X\",\"word\":\"hi\"}\n"));
    assert_eq!(session, Session::Guessing { id: "X".to_string(), candidates: words(&["hello"]), word_length: 2 });
}

#[test]
fn transport_failure_ends_the_session() {
    let (session, action) = Session::new(player()).step(Event::TransportFailed("refused".to_string()));
    assert_eq!(action, Action::Stop);
    assert_eq!(session.outcome(), Some(Err(SessionError::Transport("refused".to_string()))));
    let (session, _) = after_handshake("X").step(Event::TransportFailed("closed".to_string()));
    assert_eq!(session.outcome(), Some(Err(SessionError::Transport("closed".to_string()))));
}

#[test]
fn a_session_that_is_over_stays_over() {
    let (session, _) = after_handshake("X").step(line("{\"type\":\"bye\",\"id\":\"X\",\"flag\":\"F\"}"));
    let (session, action) = session.step(line("{\"type\":\"retry\",\"id\":\"X\",\"guesses\":[]}"));
    assert_eq!(action, Action::Stop);
    let (session, action) = session.step(Event::Begin);
    assert_eq!(action, Action::Stop);
    let (session, action) = session.step(Event::TransportFailed("late".to_string()));
    assert_eq!(action, Action::Stop);
    assert_eq!(session, Session::Done(Ok("F".to_string())));
}

#[test]
fn events_out_of_turn_end_the_session() {
    let (session, action) = Session::new(player()).step(line("{\"type\":\"start\",\"id\":\"X\"}"));
    assert_eq!(action, Action::Stop);
    assert_eq!(session.outcome(), Some(Err(SessionError::Protocol("event out of turn".to_string()))));
    let (session, _) = after_handshake("X").step(Event::Begin);
    assert_eq!(session.outcome(), Some(Err(SessionError::Protocol("event out of turn".to_string()))));
    assert_eq!(Session::new(player()).outcome(), None);
}

#[test]
fn replies_taken_up_directly() {
    let (session, action) = on_hello(words(&["a", "b"]), Ok("X".to_string()));
    assert_eq!(action, send("{\"type\":\"guess\",\"id\":\"X\",\"word\":\"b\"}\n"));
    assert_eq!(session, Session::Guessing { id: "X".to_string(), candidates: words(&["a"]), word_length: 1 });
    let (session, action) = on_hello(words(&["a"]), Err(SessionError::MalformedMessage));
    assert_eq!((session, action), (Session::Done(Err(SessionError::MalformedMessage)), Action::Stop));

    let (session, action) = on_reply("X".to_string(), words(&["a"]), 1, Ok(ContentType::FLAG("F".to_string())));
    assert_eq!((session, action), (Session::Done(Ok("F".to_string())), Action::Stop));
    let history = vec![Guess { word: "b".to_string(), marks: vec![Indicator::ABSENT] }];
    let (session, action) = on_reply("X".to_string(), words(&["a", "b", "c"]), 1, Ok(ContentType::MATCHES(history)));
    assert_eq!(action, send("{\"type\":\"guess\",\"id\":\"X\",\"word\":\"c\"}\n"));
    assert_eq!(session, Session::Guessing { id: "X".to_string(), candidates: words(&["a"]), word_length: 1 });
}

#[test]
fn lengths_of_a_history() {
    let history = vec![
        Guess { word: "ab".to_string(), marks: vec![] },
        Guess { word: "h\u{e9}".to_string(), marks: vec![] },
    ];
    assert!(check_lengths(&history, 2));
    assert!(!check_lengths(&history, 3));
    assert!(check_lengths(&Vec::new(), 9));
}

#[test]
fn a_candidate_of_another_length_is_not_sent() {
    let player = Player { username: "bob".to_string(), word_list: words(&["hellos", "hills"]) };
    let (session, _) = Session::new(player).step(Event::Begin);
    let (session, action) = session.step(line("{\"type\":\"start\",\"id\":\"X\"}"));
    assert_eq!(action, send("{\"type\":\"guess\",\"id\":\"X\",\"word\":\"hills\"}\n"));
    let retry = "{\"type\":\"retry\",\"id\":\"X\",\"guesses\":[{\"word\":\"hills\",\"marks\":[2,0,2,2,0]}]}";
    let (session, action) = session.step(line(retry));
    assert_eq!(action, Action::Stop);
    assert_eq!(session.outcome(), Some(Err(SessionError::LengthMismatch)));
}
