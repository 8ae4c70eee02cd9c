//! The server's messages: what each reply means to a session.

use vstd::prelude::*;
use crate::error::ErrorModel;
use crate::error::SessionError;
use crate::player::Guess;
use crate::player::GuessModel;
use crate::player::Indicator;
use crate::player::history_of;
use crate::text::same_text;
use crate::wire::Json;
use crate::wire::JsonKind;
use crate::wire::JsonModel;
use crate::wire::KindModel;
use crate::wire::decode;
use crate::wire::decoded;
use crate::wire::extract_json_field;
use crate::wire::field_text;
use crate::wire::lemma_array_members;
use crate::wire::line_document;
use crate::wire::required_field;
use crate::wire::text_of_field;

verus! {

/// The type that a message of the server announces.
#[derive(Debug, PartialEq, Eq)]
pub enum ResponseType {
    START,
    RETRY,
    BYE,
    ERROR,
    /// A type that the protocol does not know, as it was written.
    UNKNOWN(String),
}

/// The mathematical value of a [`ResponseType`].
pub ghost enum ResponseKind {
    Start,
    Retry,
    Bye,
    Error,
    Unknown(Seq<char>),
}

impl View for ResponseType {
    type V = ResponseKind;

    open spec fn view(&self) -> ResponseKind {
        match self {
            ResponseType::START => ResponseKind::Start,
            ResponseType::RETRY => ResponseKind::Retry,
            ResponseType::BYE => ResponseKind::Bye,
            ResponseType::ERROR => ResponseKind::Error,
            ResponseType::UNKNOWN(text) => ResponseKind::Unknown(text@),
        }
    }
}

/// The response type that a wire string names.
pub open spec fn response_type(text: Seq<char>) -> ResponseKind {
    if text == "start"@ {
        ResponseKind::Start
    } else if text == "retry"@ {
        ResponseKind::Retry
    } else if text == "bye"@ {
        ResponseKind::Bye
    } else if text == "error"@ {
        ResponseKind::Error
    } else {
        ResponseKind::Unknown(text)
    }
}

impl ResponseType {
    /// The response type that a wire string names.
    pub fn from(input: &str) -> (r: ResponseType)
        ensures
            r@ == response_type(input@),
    {
        if same_text(input, "start") {
            ResponseType::START
        } else if same_text(input, "retry") {
            ResponseType::RETRY
        } else if same_text(input, "bye") {
            ResponseType::BYE
        } else if same_text(input, "error") {
            ResponseType::ERROR
        } else {
            ResponseType::UNKNOWN(input.to_owned())
        }
    }
}

/// What a reply to a guess brings.
#[derive(Debug, PartialEq, Eq)]
pub enum ContentType {
    /// The guesses made so far, each with its marks.
    MATCHES(Vec<Guess>),
    /// The flag that ends the game.
    FLAG(String),
}

/// The mathematical value of a [`ContentType`].
pub ghost enum ContentModel {
    Matches(Seq<GuessModel>),
    Flag(Seq<char>),
}

impl View for ContentType {
    type V = ContentModel;

    open spec fn view(&self) -> ContentModel {
        match self {
            ContentType::MATCHES(guesses) => ContentModel::Matches(history_of(guesses@)),
            ContentType::FLAG(flag) => ContentModel::Flag(flag@),
        }
    }
}

/// The type of a message: its `type` field, which must be there.
pub open spec fn message_type(doc: JsonModel) -> Result<ResponseKind, ErrorModel> {
    match required_field(doc, "type"@) {
        Ok(value) => Ok(response_type(value.shown)),
        Err(e) => Err(e),
    }
}

/// The type of a message and the session id it carries. An error message
/// carries no id and fails with the server's text; so does a message of
/// unknown type, as a protocol error.
pub open spec fn response_head(doc: JsonModel) -> Result<(ResponseKind, Seq<char>), ErrorModel> {
    match message_type(doc) {
        Err(e) => Err(e),
        Ok(ResponseKind::Error) => Err(ErrorModel::Server(field_text(doc, "message"@))),
        Ok(ResponseKind::Unknown(_)) => Err(ErrorModel::Protocol("unexpected type while guessing"@)),
        Ok(kind) => match required_field(doc, "id"@) {
            Ok(id) => Ok((kind, id.shown)),
            Err(e) => Err(e),
        },
    }
}

/// What the reply to the greeting means: a start message gives the session
/// id, an error message fails with the server's text, any other type is a
/// protocol error.
pub open spec fn hello_outcome(doc: JsonModel) -> Result<Seq<char>, ErrorModel> {
    match message_type(doc) {
        Err(e) => Err(e),
        Ok(ResponseKind::Start) => match required_field(doc, "id"@) {
            Ok(id) => Ok(id.shown),
            Err(e) => Err(e),
        },
        Ok(ResponseKind::Error) => Err(ErrorModel::Server(field_text(doc, "message"@))),
        Ok(_) => Err(ErrorModel::Protocol("unexpected type during handshake"@)),
    }
}

/// The indicator that a JSON value stands for: the numbers 0, 1 and 2 do,
/// nothing else does.
pub open spec fn mark_of(value: JsonModel) -> Option<Indicator> {
    match value.kind {
        KindModel::Number(Some(code)) => if code == 0 {
            Some(Indicator::ABSENT)
        } else if code == 1 {
            Some(Indicator::INCORRECT)
        } else if code == 2 {
            Some(Indicator::CORRECT)
        } else {
            None
        },
        _ => None,
    }
}

/// Every one of the values stands for an indicator.
pub open spec fn all_marks(items: Seq<JsonModel>) -> bool {
    forall|i: int| 0 <= i < items.len() ==> (#[trigger] mark_of(items[i])) is Some
}

/// The marks that an array holds. An element that is none of 0, 1 and 2 is
/// an invalid indicator; failing that, a length other than the expected one
/// is a length mismatch. Anything but an array is malformed.
pub open spec fn marks_of(doc: JsonModel, expected: nat) -> Result<Seq<Indicator>, ErrorModel> {
    match doc.kind {
        KindModel::Array(items) => if !all_marks(items) {
            Err(ErrorModel::InvalidIndicator)
        } else if items.len() != expected {
            Err(ErrorModel::LengthMismatch)
        } else {
            Ok(items.map_values(|value: JsonModel| mark_of(value)->Some_0))
        },
        _ => Err(ErrorModel::MalformedMessage),
    }
}

/// The guess that an object holds: its word, and its marks, which must be
/// as many as the word has letters.
pub open spec fn guess_of(doc: JsonModel) -> Result<GuessModel, ErrorModel> {
    match required_field(doc, "word"@) {
        Err(e) => Err(e),
        Ok(word) => match required_field(doc, "marks"@) {
            Err(e) => Err(e),
            Ok(marks) => match marks_of(marks, word.shown.len()) {
                Err(e) => Err(e),
                Ok(decoded_marks) => Ok(GuessModel { word: word.shown, marks: decoded_marks }),
            },
        },
    }
}

/// The guesses that the first `n` values hold, or the error of the first
/// value that holds none.
pub open spec fn guesses_upto(items: Seq<JsonModel>, n: int) -> Result<Seq<GuessModel>, ErrorModel>
    decreases n,
{
    if n <= 0 {
        Ok(Seq::empty())
    } else {
        match guesses_upto(items, n - 1) {
            Err(e) => Err(e),
            Ok(earlier) => match guess_of(items[n - 1]) {
                Err(e) => Err(e),
                Ok(guess) => Ok(earlier.push(guess)),
            },
        }
    }
}

/// The guesses that an array holds. Anything but an array is malformed.
pub open spec fn guesses_of(doc: JsonModel) -> Result<Seq<GuessModel>, ErrorModel> {
    match doc.kind {
        KindModel::Array(items) => guesses_upto(items, items.len() as int),
        _ => Err(ErrorModel::MalformedMessage),
    }
}

/// What the reply to a guess means to the session with id `session_id`:
/// an error message fails with the server's text; a reply with another id
/// is a mismatch; a retry brings the guesses so far, a bye brings the flag,
/// and any other type is a protocol error.
pub open spec fn reply_outcome(doc: JsonModel, session_id: Seq<char>) -> Result<
    ContentModel,
    ErrorModel,
> {
    match response_head(doc) {
        Err(e) => Err(e),
        Ok((kind, id)) => if id != session_id {
            Err(ErrorModel::SessionIdMismatch)
        } else {
            match kind {
                ResponseKind::Retry => match required_field(doc, "guesses"@) {
                    Err(e) => Err(e),
                    Ok(list) => match guesses_of(list) {
                        Err(e) => Err(e),
                        Ok(guesses) => Ok(ContentModel::Matches(guesses)),
                    },
                },
                ResponseKind::Bye => match required_field(doc, "flag"@) {
                    Err(e) => Err(e),
                    Ok(flag) => Ok(ContentModel::Flag(flag.shown)),
                },
                _ => Err(ErrorModel::Protocol("unexpected type while guessing"@)),
            }
        },
    }
}

/// What a line means once decoded: a line that does not decode fails as
/// decoding does.
pub open spec fn of_line<T>(
    line: Seq<char>,
    meaning: spec_fn(JsonModel) -> Result<T, ErrorModel>,
) -> Result<T, ErrorModel> {
    match decoded(line_document(line)) {
        Ok(doc) => meaning(doc),
        Err(e) => Err(e),
    }
}

/// A text result agrees with its model.
pub open spec fn text_is(r: Result<String, SessionError>, m: Result<Seq<char>, ErrorModel>) -> bool {
    match m {
        Ok(text) => r is Ok && r->Ok_0@ == text,
        Err(e) => r is Err && r->Err_0@ == e,
    }
}

/// A response type agrees with its model.
pub open spec fn type_is(r: Result<ResponseType, SessionError>, m: Result<ResponseKind, ErrorModel>) -> bool {
    match m {
        Ok(kind) => r is Ok && r->Ok_0@ == kind,
        Err(e) => r is Err && r->Err_0@ == e,
    }
}

/// A response head agrees with its model.
pub open spec fn head_is(
    r: Result<(ResponseType, String), SessionError>,
    m: Result<(ResponseKind, Seq<char>), ErrorModel>,
) -> bool {
    match m {
        Ok((kind, id)) => r is Ok && r->Ok_0.0@ == kind && r->Ok_0.1@ == id,
        Err(e) => r is Err && r->Err_0@ == e,
    }
}

/// Decoded marks agree with their model.
pub open spec fn marks_are(r: Result<Vec<Indicator>, SessionError>, m: Result<Seq<Indicator>, ErrorModel>) -> bool {
    match m {
        Ok(marks) => r is Ok && r->Ok_0@ == marks,
        Err(e) => r is Err && r->Err_0@ == e,
    }
}

/// A decoded guess agrees with its model.
pub open spec fn guess_is(r: Result<Guess, SessionError>, m: Result<GuessModel, ErrorModel>) -> bool {
    match m {
        Ok(guess) => r is Ok && r->Ok_0@ == guess,
        Err(e) => r is Err && r->Err_0@ == e,
    }
}

/// Decoded guesses agree with their model.
pub open spec fn guesses_are(r: Result<Vec<Guess>, SessionError>, m: Result<Seq<GuessModel>, ErrorModel>) -> bool {
    match m {
        Ok(guesses) => r is Ok && history_of(r->Ok_0@) == guesses,
        Err(e) => r is Err && r->Err_0@ == e,
    }
}

/// A decoded reply agrees with its model.
pub open spec fn content_is(r: Result<ContentType, SessionError>, m: Result<ContentModel, ErrorModel>) -> bool {
    match m {
        Ok(content) => r is Ok && r->Ok_0@ == content,
        Err(e) => r is Err && r->Err_0@ == e,
    }
}

/// Reads the type of a message.
pub fn read_type(json_response: &Json) -> (r: Result<ResponseType, SessionError>)
    ensures
        type_is(r, message_type(json_response@)),
{
    match extract_json_field(json_response, "type") {
        Ok(value) => Ok(ResponseType::from(value.shown.as_str())),
        Err(e) => Err(e),
    }
}

/// Reads the type of a reply and the session id it carries.
pub fn parse_response(json_response: &Json) -> (r: Result<(ResponseType, String), SessionError>)
    ensures
        head_is(r, response_head(json_response@)),
{
    match read_type(json_response) {
        Err(e) => Err(e),
        Ok(ResponseType::ERROR) => Err(SessionError::Server(text_of_field(json_response, "message"))),
        Ok(ResponseType::UNKNOWN(_)) => Err(
            SessionError::Protocol(String::from_str("unexpected type while guessing")),
        ),
        Ok(response_type) => match extract_json_field(json_response, "id") {
            Ok(id) => Ok((response_type, id.shown.clone())),
            Err(e) => Err(e),
        },
    }
}

/// Reads the reply to the greeting from a decoded message.
pub fn interpret_hello(json_response: &Json) -> (r: Result<String, SessionError>)
    ensures
        text_is(r, hello_outcome(json_response@)),
{
    match read_type(json_response) {
        Err(e) => Err(e),
        Ok(ResponseType::START) => match extract_json_field(json_response, "id") {
            Ok(id) => Ok(id.shown.clone()),
            Err(e) => Err(e),
        },
        Ok(ResponseType::ERROR) => Err(SessionError::Server(text_of_field(json_response, "message"))),
        Ok(_) => Err(SessionError::Protocol(String::from_str("unexpected type during handshake"))),
    }
}

/// Reads the reply to the greeting: the session id that the server issued.
pub fn parse_hello_response(raw_response: &str) -> (r: Result<String, SessionError>)
    ensures
        text_is(r, of_line(raw_response@, |doc: JsonModel| hello_outcome(doc))),
{
    match decode(raw_response) {
        Ok(doc) => interpret_hello(&doc),
        Err(e) => Err(e),
    }
}

/// Decodes the marks of a guess, which must be as many as `expected_length`.
pub fn parse_marks(json_marks: &Json, expected_length: usize) -> (r: Result<Vec<Indicator>, SessionError>)
    ensures
        marks_are(r, marks_of(json_marks@, expected_length as nat)),
{
    match &json_marks.kind {
        JsonKind::Array(items) => {
            let ghost m = json_marks@.kind->Array_0;
            proof {
                lemma_array_members(*json_marks);
            }
            let mut marks: Vec<Indicator> = Vec::new();
            let mut i: usize = 0;
            while i < items.len()
                invariant
                    i <= items.len(),
                    json_marks.kind == JsonKind::Array(*items),
                    m == json_marks@.kind->Array_0,
                    m.len() == items@.len(),
                    forall|j: int| 0 <= j < items@.len() ==> #[trigger] m[j] == items@[j]@,
                    marks.len() == i,
                    forall|j: int| 0 <= j < i ==> #[trigger] mark_of(m[j]) == Some(marks@[j]),
                decreases items.len() - i,
            {
                assert(m[i as int] == items@[i as int]@);
                let code: u8 = match &items[i].kind {
                    JsonKind::Number(Some(code)) => *code,
                    _ => {
                        assert(mark_of(m[i as int]) is None);
                        return Err(SessionError::InvalidIndicator);
                    },
                };
                match Indicator::try_from(code) {
                    Ok(indicator) => {
                        assert(mark_of(m[i as int]) == Some(indicator));
                        marks.push(indicator);
                    },
                    Err(_) => {
                        assert(mark_of(m[i as int]) is None);
                        return Err(SessionError::InvalidIndicator);
                    },
                }
                i += 1;
            }
            if marks.len() != expected_length {
                return Err(SessionError::LengthMismatch);
            }
            proof {
                assert(marks@ =~= m.map_values(|value: JsonModel| mark_of(value)->Some_0));
            }
            Ok(marks)
        },
        _ => Err(SessionError::MalformedMessage),
    }
}

/// Decodes one guess with its marks.
pub fn parse_guess(json_guess: &Json) -> (r: Result<Guess, SessionError>)
    ensures
        guess_is(r, guess_of(json_guess@)),
{
    let word: &Json = match extract_json_field(json_guess, "word") {
        Ok(value) => value,
        Err(e) => {
            return Err(e);
        },
    };
    let raw_marks: &Json = match extract_json_field(json_guess, "marks") {
        Ok(value) => value,
        Err(e) => {
            return Err(e);
        },
    };
    let letters: usize = word.shown.as_str().unicode_len();
    match parse_marks(raw_marks, letters) {
        Ok(marks) => Ok(Guess { word: word.shown.clone(), marks }),
        Err(e) => Err(e),
    }
}

/// Decodes the guesses that a retry message lists.
pub fn parse_guesses(json_guesses: &Json) -> (r: Result<Vec<Guess>, SessionError>)
    ensures
        guesses_are(r, guesses_of(json_guesses@)),
{
    match &json_guesses.kind {
        JsonKind::Array(items) => {
            let ghost m = json_guesses@.kind->Array_0;
            proof {
                lemma_array_members(*json_guesses);
            }
            let mut guesses: Vec<Guess> = Vec::new();
            let mut i: usize = 0;
            proof {
                assert(history_of(guesses@) =~= Seq::empty());
            }
            while i < items.len()
                invariant
                    i <= items.len(),
                    json_guesses.kind == JsonKind::Array(*items),
                    m == json_guesses@.kind->Array_0,
                    m.len() == items@.len(),
                    forall|j: int| 0 <= j < items@.len() ==> #[trigger] m[j] == items@[j]@,
                    guesses_upto(m, i as int) == Ok::<Seq<GuessModel>, ErrorModel>(
                        history_of(guesses@),
                    ),
                decreases items.len() - i,
            {
                assert(m[i as int] == items@[i as int]@);
                match parse_guess(&items[i]) {
                    Ok(guess) => {
                        let ghost before = guesses@;
                        guesses.push(guess);
                        proof {
                            assert(history_of(guesses@) =~= history_of(before).push(guess@));
                        }
                    },
                    Err(e) => {
                        proof {
                            lemma_guesses_fail_on(m, i as int, items@.len() as int);
                        }
                        return Err(e);
                    },
                }
                i += 1;
            }
            Ok(guesses)
        },
        _ => Err(SessionError::MalformedMessage),
    }
}

/// Once a value holds no guess, every longer prefix fails with its error.
pub proof fn lemma_guesses_fail_on(items: Seq<JsonModel>, i: int, n: int)
    requires
        0 <= i < n,
        guesses_upto(items, i) is Ok,
        guess_of(items[i]) is Err,
    ensures
        guesses_upto(items, n) == Err::<Seq<GuessModel>, ErrorModel>(guess_of(items[i])->Err_0),
    decreases n,
{
    if n > i + 1 {
        lemma_guesses_fail_on(items, i, n - 1);
    }
}

/// Reads the reply to a guess from a decoded message.
pub fn interpret_reply(json_response: &Json, player_id: &str) -> (r: Result<ContentType, SessionError>)
    ensures
        content_is(r, reply_outcome(json_response@, player_id@)),
{
    let (response_type, id_value) = match parse_response(json_response) {
        Ok(head) => head,
        Err(e) => {
            return Err(e);
        },
    };
    if !same_text(id_value.as_str(), player_id) {
        return Err(SessionError::SessionIdMismatch);
    }
    match response_type {
        ResponseType::RETRY => {
            let json_guesses: &Json = match extract_json_field(json_response, "guesses") {
                Ok(value) => value,
                Err(e) => {
                    return Err(e);
                },
            };
            match parse_guesses(json_guesses) {
                Ok(previous_guesses) => Ok(ContentType::MATCHES(previous_guesses)),
                Err(e) => Err(e),
            }
        },
        ResponseType::BYE => match extract_json_field(json_response, "flag") {
            Ok(content) => Ok(ContentType::FLAG(content.shown.clone())),
            Err(e) => Err(e),
        },
        _ => Err(SessionError::Protocol(String::from_str("unexpected type while guessing"))),
    }
}

/// Reads the reply to a guess: the guesses so far, or the flag.
pub fn parse_guess_response(raw_response: &str, player_id: &str) -> (r: Result<ContentType, SessionError>)
    ensures
        content_is(
            r,
            of_line(raw_response@, |doc: JsonModel| reply_outcome(doc, player_id@)),
        ),
{
    match decode(raw_response) {
        Ok(doc) => interpret_reply(&doc, player_id),
        Err(e) => Err(e),
    }
}

/// Marks decode exactly from an array of as many elements as expected, each
/// of them one of the numbers 0, 1 and 2, and each indicator is then the one
/// that its number stands for. An element that is none of the three is an
/// invalid indicator whatever the length; with valid elements, another
/// length is a mismatch.
pub proof fn marks_decode_exactly(doc: JsonModel, expected: nat)
    ensures
        marks_of(doc, expected) is Ok <==> doc.kind is Array && all_marks(doc.kind->Array_0)
            && doc.kind->Array_0.len() == expected,
        doc.kind is Array && !all_marks(doc.kind->Array_0) ==> marks_of(doc, expected) == Err::<
            Seq<Indicator>,
            ErrorModel,
        >(ErrorModel::InvalidIndicator),
        doc.kind is Array && all_marks(doc.kind->Array_0) && doc.kind->Array_0.len() != expected
            ==> marks_of(doc, expected) == Err::<Seq<Indicator>, ErrorModel>(
            ErrorModel::LengthMismatch,
        ),
        marks_of(doc, expected) is Ok ==> marks_of(doc, expected)->Ok_0.len() == expected
            && forall|i: int|
            0 <= i < expected ==> (#[trigger] doc.kind->Array_0[i]).kind == KindModel::Number(
                Some(marks_of(doc, expected)->Ok_0[i].code()),
            ),
{
    if marks_of(doc, expected) is Ok {
        let items = doc.kind->Array_0;
        assert forall|i: int| 0 <= i < expected implies (#[trigger] items[i]).kind == KindModel::Number(
            Some(marks_of(doc, expected)->Ok_0[i].code()),
        ) by {
            assert(mark_of(items[i]) is Some);
        }
    }
}

/// A decoded guess has as many marks as its word has letters.
pub proof fn decoded_guess_is_paired(doc: JsonModel)
    requires
        guess_of(doc) is Ok,
    ensures
        guess_of(doc)->Ok_0.marks.len() == guess_of(doc)->Ok_0.word.len(),
{
}

/// Every guess of a decoded list has as many marks as its word has letters,
/// and the list has one guess for each element, in order.
pub proof fn decoded_guesses_are_paired(items: Seq<JsonModel>, n: int)
    requires
        0 <= n <= items.len(),
        guesses_upto(items, n) is Ok,
    ensures
        guesses_upto(items, n)->Ok_0.len() == n,
        forall|k: int|
            0 <= k < n ==> guess_of(items[k]) == Ok::<GuessModel, ErrorModel>(
                #[trigger] guesses_upto(items, n)->Ok_0[k],
            ),
        forall|k: int|
            0 <= k < n ==> (#[trigger] guesses_upto(items, n)->Ok_0[k]).marks.len() == guesses_upto(
                items,
                n,
            )->Ok_0[k].word.len(),
    decreases n,
{
    if n > 0 {
        decoded_guesses_are_paired(items, n - 1);
    }
}

} // verus!
