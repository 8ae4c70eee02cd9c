//! The session state machine: what to send next, given what arrived.
//!
//! The machine does no input or output. Its driver performs each action
//! and hands back what happened as the next event.

use vstd::prelude::*;
use crate::error::ErrorModel;
use crate::error::SessionError;
use crate::error::guess_failure;
use crate::player::Guess;
use crate::player::GuessModel;
use crate::player::Player;
use crate::player::history_of;
use crate::player::make_guess;
use crate::player::selection;
use crate::player::selection_is_sound;
use crate::player::words_of;
use crate::remote::ContentModel;
use crate::remote::ContentType;
use crate::remote::ResponseKind;
use crate::remote::hello_outcome;
use crate::remote::message_type;
use crate::remote::of_line;
use crate::remote::parse_guess_response;
use crate::remote::parse_hello_response;
use crate::remote::reply_outcome;
use crate::wire::JsonModel;
use crate::wire::decoded;
use crate::wire::field_text;
use crate::wire::fields_of;
use crate::wire::message_bytes;
use crate::wire::line_document;
use crate::wire::prepare_message;

verus! {

/// Where a session stands.
#[derive(Debug, PartialEq, Eq)]
pub enum Session {
    /// Nothing has been sent.
    Init { username: String, candidates: Vec<String> },
    /// The greeting is out; the server's start message is awaited.
    AwaitStart { candidates: Vec<String> },
    /// A guess is out; the server's reply is awaited. Every word of the
    /// session has `word_length` letters.
    Guessing { id: String, candidates: Vec<String>, word_length: usize },
    /// The session is over, with the flag or with the error that ended it.
    Done(Result<String, SessionError>),
}

/// What happened outside the machine.
#[derive(Debug, PartialEq, Eq)]
pub enum Event {
    /// The stream stands; the session may begin.
    Begin,
    /// A line arrived.
    Line(String),
    /// The stream failed on opening, reading or writing.
    TransportFailed(String),
}

/// What the driver is to do next.
#[derive(Debug, PartialEq, Eq)]
pub enum Action {
    /// Write these bytes in full, then read one line.
    Send(Vec<u8>),
    /// Nothing more: the session is over.
    Stop,
}

/// The mathematical value of a [`Session`].
pub ghost enum SessionModel {
    Init { username: Seq<char>, candidates: Seq<Seq<char>> },
    AwaitStart { candidates: Seq<Seq<char>> },
    Guessing { id: Seq<char>, candidates: Seq<Seq<char>>, word_length: nat },
    Done(Result<Seq<char>, ErrorModel>),
}

/// The mathematical value of an [`Event`].
pub ghost enum EventModel {
    Begin,
    Line(Seq<char>),
    TransportFailed(Seq<char>),
}

/// The mathematical value of an [`Action`].
pub ghost enum ActionModel {
    Send(Seq<u8>),
    Stop,
}

/// The value of a session's outcome.
pub open spec fn outcome_of(outcome: Result<String, SessionError>) -> Result<Seq<char>, ErrorModel> {
    match outcome {
        Ok(flag) => Ok(flag@),
        Err(e) => Err(e@),
    }
}

impl View for Session {
    type V = SessionModel;

    open spec fn view(&self) -> SessionModel {
        match self {
            Session::Init { username, candidates } => SessionModel::Init {
                username: username@,
                candidates: words_of(candidates@),
            },
            Session::AwaitStart { candidates } => SessionModel::AwaitStart {
                candidates: words_of(candidates@),
            },
            Session::Guessing { id, candidates, word_length } => SessionModel::Guessing {
                id: id@,
                candidates: words_of(candidates@),
                word_length: *word_length as nat,
            },
            Session::Done(outcome) => SessionModel::Done(outcome_of(*outcome)),
        }
    }
}

impl View for Event {
    type V = EventModel;

    open spec fn view(&self) -> EventModel {
        match self {
            Event::Begin => EventModel::Begin,
            Event::Line(line) => EventModel::Line(line@),
            Event::TransportFailed(reason) => EventModel::TransportFailed(reason@),
        }
    }
}

impl View for Action {
    type V = ActionModel;

    open spec fn view(&self) -> ActionModel {
        match self {
            Action::Send(bytes) => ActionModel::Send(bytes@),
            Action::Stop => ActionModel::Stop,
        }
    }
}

/// The fields of the greeting.
pub open spec fn hello_fields(username: Seq<char>) -> Seq<(Seq<char>, Seq<char>)> {
    seq![("type"@, "hello"@), ("northeastern_username"@, username)]
}

/// The fields of a guess.
pub open spec fn guess_fields(id: Seq<char>, word: Seq<char>) -> Seq<(Seq<char>, Seq<char>)> {
    seq![("type"@, "guess"@), ("id"@, id), ("word"@, word)]
}

/// The session ends with this error, and nothing more is sent.
pub open spec fn failed(e: ErrorModel) -> (SessionModel, ActionModel) {
    (SessionModel::Done(Err(e)), ActionModel::Stop)
}

/// Every guessed word of the history has `length` letters.
pub open spec fn lengths_agree(h: Seq<GuessModel>, length: nat) -> bool {
    forall|k: int| 0 <= k < h.len() ==> (#[trigger] h[k]).word.len() == length
}

/// One round of guessing: the next guess is selected and sent, and the
/// other candidates are kept. The session fails where no guess can be made,
/// or where the guess has not the length that the session's words have.
pub open spec fn guess_round(
    id: Seq<char>,
    h: Seq<GuessModel>,
    candidates: Seq<Seq<char>>,
    expected: Option<nat>,
) -> (SessionModel, ActionModel) {
    match selection(h, candidates) {
        Err(e) => failed(guess_failure(e)),
        Ok((word, rest)) => if expected is Some && expected->Some_0 != word.len() {
            failed(ErrorModel::LengthMismatch)
        } else {
            (
                SessionModel::Guessing { id, candidates: rest, word_length: word.len() },
                ActionModel::Send(message_bytes(guess_fields(id, word))),
            )
        },
    }
}

/// After the reply to the greeting: with a session id the first guess goes
/// out; an error ends the session.
pub open spec fn after_hello(candidates: Seq<Seq<char>>, reply: Result<Seq<char>, ErrorModel>) -> (
    SessionModel,
    ActionModel,
) {
    match reply {
        Ok(id) => guess_round(id, Seq::empty(), candidates, None),
        Err(e) => failed(e),
    }
}

/// After the reply to a guess: the flag ends the session with success; the
/// server's list of guesses replaces the history and the next guess goes
/// out; an error ends the session.
pub open spec fn after_reply(
    id: Seq<char>,
    candidates: Seq<Seq<char>>,
    word_length: nat,
    reply: Result<ContentModel, ErrorModel>,
) -> (SessionModel, ActionModel) {
    match reply {
        Ok(ContentModel::Flag(flag)) => (SessionModel::Done(Ok(flag)), ActionModel::Stop),
        Ok(ContentModel::Matches(h)) => if lengths_agree(h, word_length) {
            guess_round(id, h, candidates, Some(word_length))
        } else {
            failed(ErrorModel::LengthMismatch)
        },
        Err(e) => failed(e),
    }
}

/// The transition function: the state after the event, and what to do.
pub open spec fn next(s: SessionModel, e: EventModel) -> (SessionModel, ActionModel) {
    match (s, e) {
        (SessionModel::Done(outcome), _) => (SessionModel::Done(outcome), ActionModel::Stop),
        (_, EventModel::TransportFailed(reason)) => failed(ErrorModel::Transport(reason)),
        (SessionModel::Init { username, candidates }, EventModel::Begin) => (
            SessionModel::AwaitStart { candidates },
            ActionModel::Send(message_bytes(hello_fields(username))),
        ),
        (SessionModel::AwaitStart { candidates }, EventModel::Line(line)) => after_hello(
            candidates,
            of_line(line, |doc: JsonModel| hello_outcome(doc)),
        ),
        (SessionModel::Guessing { id, candidates, word_length }, EventModel::Line(line)) => after_reply(
            id,
            candidates,
            word_length,
            of_line(line, |doc: JsonModel| reply_outcome(doc, id)),
        ),
        _ => failed(ErrorModel::Protocol("event out of turn"@)),
    }
}

/// A step agrees with its model.
pub open spec fn step_is(r: (Session, Action), m: (SessionModel, ActionModel)) -> bool {
    r.0@ == m.0 && r.1@ == m.1
}

/// Ends the session with an error.
fn fail(e: SessionError) -> (r: (Session, Action))
    ensures
        step_is(r, failed(e@)),
{
    (Session::Done(Err(e)), Action::Stop)
}

/// Whether every guessed word of the history has `length` letters.
pub fn check_lengths(history: &Vec<Guess>, length: usize) -> (r: bool)
    ensures
        r == lengths_agree(history_of(history@), length as nat),
{
    let mut k: usize = 0;
    while k < history.len()
        invariant
            k <= history.len(),
            forall|j: int| 0 <= j < k ==> (#[trigger] history_of(history@)[j]).word.len() == length,
        decreases history.len() - k,
    {
        if history[k].word.as_str().unicode_len() != length {
            assert(history_of(history@)[k as int].word.len() != length);
            return false;
        }
        k += 1;
    }
    true
}

/// Plays one round: selects the next guess from the candidates, given the
/// history, and has it sent under the session id.
pub fn play_round(id: String, history: Vec<Guess>, candidates: Vec<String>, expected: Option<usize>) -> (r: (
    Session,
    Action,
))
    ensures
        step_is(
            r,
            guess_round(
                id@,
                history_of(history@),
                words_of(candidates@),
                match expected {
                    Some(length) => Some(length as nat),
                    None => None,
                },
            ),
        ),
{
    match make_guess(history, candidates) {
        Err(e) => fail(SessionError::from_guess(e)),
        Ok((word, rest)) => {
            let length: usize = word.as_str().unicode_len();
            match expected {
                Some(wanted) => {
                    if wanted != length {
                        return fail(SessionError::LengthMismatch);
                    }
                },
                None => {},
            }
            let mut fields: Vec<(String, String)> = Vec::new();
            fields.push((String::from_str("type"), String::from_str("guess")));
            fields.push((String::from_str("id"), id.clone()));
            fields.push((String::from_str("word"), word));
            proof {
                assert(fields_of(fields@) =~= guess_fields(id@, word@));
            }
            let bytes: Vec<u8> = prepare_message(fields);
            (Session::Guessing { id, candidates: rest, word_length: length }, Action::Send(bytes))
        },
    }
}

/// Takes up the reply to the greeting.
pub fn on_hello(candidates: Vec<String>, reply: Result<String, SessionError>) -> (r: (Session, Action))
    ensures
        step_is(
            r,
            after_hello(
                words_of(candidates@),
                match reply {
                    Ok(id) => Ok(id@),
                    Err(e) => Err(e@),
                },
            ),
        ),
{
    match reply {
        Ok(id) => {
            let history: Vec<Guess> = Vec::new();
            proof {
                assert(history_of(history@) =~= Seq::empty());
            }
            play_round(id, history, candidates, None)
        },
        Err(e) => fail(e),
    }
}

/// Takes up the reply to a guess.
pub fn on_reply(id: String, candidates: Vec<String>, word_length: usize, reply: Result<
    ContentType,
    SessionError,
>) -> (r: (Session, Action))
    ensures
        step_is(
            r,
            after_reply(
                id@,
                words_of(candidates@),
                word_length as nat,
                match reply {
                    Ok(content) => Ok(content@),
                    Err(e) => Err(e@),
                },
            ),
        ),
{
    match reply {
        Ok(ContentType::FLAG(flag)) => (Session::Done(Ok(flag)), Action::Stop),
        Ok(ContentType::MATCHES(history)) => {
            if check_lengths(&history, word_length) {
                play_round(id, history, candidates, Some(word_length))
            } else {
                fail(SessionError::LengthMismatch)
            }
        },
        Err(e) => fail(e),
    }
}

impl Session {
    /// A session that has not begun.
    pub fn new(player: Player) -> (r: Session)
        ensures
            r@ == (SessionModel::Init {
                username: player.username@,
                candidates: words_of(player.word_list@),
            }),
    {
        Session::Init { username: player.username, candidates: player.word_list }
    }

    /// The state after `event`, and what the driver is to do next.
    pub fn step(self, event: Event) -> (r: (Session, Action))
        ensures
            step_is(r, next(self@, event@)),
    {
        match self {
            Session::Done(outcome) => (Session::Done(outcome), Action::Stop),
            Session::Init { username, candidates } => match event {
                Event::TransportFailed(reason) => fail(SessionError::Transport(reason)),
                Event::Begin => {
                    let mut fields: Vec<(String, String)> = Vec::new();
                    fields.push((String::from_str("type"), String::from_str("hello")));
                    fields.push((String::from_str("northeastern_username"), username));
                    proof {
                        assert(fields_of(fields@) =~= hello_fields(username@));
                    }
                    (Session::AwaitStart { candidates }, Action::Send(prepare_message(fields)))
                },
                Event::Line(_) => fail(SessionError::Protocol(String::from_str("event out of turn"))),
            },
            Session::AwaitStart { candidates } => match event {
                Event::TransportFailed(reason) => fail(SessionError::Transport(reason)),
                Event::Line(line) => on_hello(candidates, parse_hello_response(line.as_str())),
                Event::Begin => fail(SessionError::Protocol(String::from_str("event out of turn"))),
            },
            Session::Guessing { id, candidates, word_length } => match event {
                Event::TransportFailed(reason) => fail(SessionError::Transport(reason)),
                Event::Line(line) => {
                    let reply = parse_guess_response(line.as_str(), id.as_str());
                    on_reply(id, candidates, word_length, reply)
                },
                Event::Begin => fail(SessionError::Protocol(String::from_str("event out of turn"))),
            },
        }
    }

    /// Whether the session is over.
    pub fn is_done(&self) -> (r: bool)
        ensures
            r == (self@ is Done),
    {
        match self {
            Session::Done(_) => true,
            _ => false,
        }
    }

    /// The outcome of a session that is over: the flag, or the error.
    pub fn outcome(self) -> (r: Option<Result<String, SessionError>>)
        ensures
            r is Some <==> self@ is Done,
            r is Some ==> self@ == SessionModel::Done(outcome_of(r->Some_0)),
    {
        match self {
            Session::Done(outcome) => Some(outcome),
            _ => None,
        }
    }
}

/// A session that is over stays as it is, whatever happens, and nothing
/// more is sent.
pub proof fn done_is_final(s: SessionModel, e: EventModel)
    requires
        s is Done,
    ensures
        next(s, e) == (s, ActionModel::Stop),
{
}

/// A failure of the stream ends any running session with that error.
pub proof fn transport_failure_is_fatal(s: SessionModel, reason: Seq<char>)
    requires
        !(s is Done),
    ensures
        next(s, EventModel::TransportFailed(reason)) == failed(ErrorModel::Transport(reason)),
{
}

/// While the guessing goes on, the session id and the word length stay as
/// they were set, the candidates are fewer after each round, and each one
/// left was a candidate before.
pub proof fn guessing_keeps_id_and_shrinks(s: SessionModel, e: EventModel)
    requires
        s is Guessing,
        next(s, e).0 is Guessing,
    ensures
        next(s, e).0->Guessing_id == s->Guessing_id,
        next(s, e).0->Guessing_word_length == s->Guessing_word_length,
        next(s, e).0->Guessing_candidates.len() < s->Guessing_candidates.len(),
        forall|j: int|
            0 <= j < next(s, e).0->Guessing_candidates.len() ==> s->Guessing_candidates.contains(
                #[trigger] next(s, e).0->Guessing_candidates[j],
            ),
        next(s, e).1 is Send,
{
    let id = s->Guessing_id;
    let candidates = s->Guessing_candidates;
    match e {
        EventModel::Line(line) => {
            let reply = of_line(line, |doc: JsonModel| reply_outcome(doc, id));
            match reply {
                Ok(ContentModel::Matches(h)) => {
                    selection_is_sound(h, candidates);
                },
                _ => {},
            }
        },
        _ => {},
    }
}

/// The first guess takes one of the candidates, and each one left was a
/// candidate before.
pub proof fn first_round_shrinks(s: SessionModel, e: EventModel)
    requires
        s is AwaitStart,
        next(s, e).0 is Guessing,
    ensures
        next(s, e).0->Guessing_candidates.len() < s->AwaitStart_candidates.len(),
        forall|j: int|
            0 <= j < next(s, e).0->Guessing_candidates.len() ==> s->AwaitStart_candidates.contains(
                #[trigger] next(s, e).0->Guessing_candidates[j],
            ),
        next(s, e).1 is Send,
{
    let candidates = s->AwaitStart_candidates;
    match e {
        EventModel::Line(line) => {
            selection_is_sound(Seq::empty(), candidates);
        },
        _ => {},
    }
}

/// An error message of the server ends a running session at once, in
/// either phase and whatever else the message holds: the session fails
/// with the server's text and nothing more is sent.
pub proof fn server_error_ends_session(s: SessionModel, line: Seq<char>)
    requires
        s is AwaitStart || s is Guessing,
    ensures
        decoded(line_document(line)) is Ok && message_type(decoded(line_document(line))->Ok_0)
            == Ok::<ResponseKind, ErrorModel>(ResponseKind::Error) ==> next(s, EventModel::Line(line))
            == failed(
            ErrorModel::Server(field_text(decoded(line_document(line))->Ok_0, "message"@)),
        ),
{
}

/// Nothing is sent without a state that awaits the answer: an action to
/// send comes only with a state that awaits a line, and a stop only with
/// the end of the session.
pub proof fn send_awaits_reply(s: SessionModel, e: EventModel)
    ensures
        next(s, e).1 is Send <==> (next(s, e).0 is AwaitStart || next(s, e).0 is Guessing),
        next(s, e).1 is Stop <==> next(s, e).0 is Done,
        !(next(s, e).0 is Init),
{
}

} // verus!
