//! The wire format: one JSON object per line, read and written by the
//! `json` crate.

use vstd::prelude::*;
use crate::error::ErrorModel;
use crate::error::SessionError;
use crate::text::same_text;

verus! {

/// What kind of JSON value a document is, with what it holds.
#[derive(Debug, PartialEq, Eq)]
pub enum JsonKind {
    Null,
    /// A string; its characters are the document's text.
    Text,
    /// A number. Its small value is what the `json` crate's `as_u8` gives:
    /// the number itself where it is not negative, is held with exponent 0
    /// and is at most 255, and nothing otherwise. So `2` and `2e0` give 2,
    /// while `2.0`, `-0` and `256` give nothing.
    Number(Option<u8>),
    Boolean(bool),
    Array(Vec<Json>),
    /// An object: its keys with their values, in the order in which they
    /// were first written.
    Object(Vec<(String, Json)>),
}

/// A JSON document, held as plain values.
#[derive(Debug, PartialEq, Eq)]
pub struct Json {
    /// The document written out as text: a string's characters as they are,
    /// anything else in JSON notation.
    pub shown: String,
    pub kind: JsonKind,
}

/// The mathematical value of a [`JsonKind`].
pub ghost enum KindModel {
    Null,
    Text,
    Number(Option<u8>),
    Boolean(bool),
    Array(Seq<JsonModel>),
    Object(Seq<(Seq<char>, JsonModel)>),
}

/// The mathematical value of a [`Json`] document.
pub ghost struct JsonModel {
    pub shown: Seq<char>,
    pub kind: KindModel,
}

/// The value of a document, part by part.
pub open spec fn model_of(doc: Json) -> JsonModel
    decreases doc,
{
    JsonModel {
        shown: doc.shown@,
        kind: match doc.kind {
            JsonKind::Null => KindModel::Null,
            JsonKind::Text => KindModel::Text,
            JsonKind::Number(small) => KindModel::Number(small),
            JsonKind::Boolean(flag) => KindModel::Boolean(flag),
            JsonKind::Array(items) => KindModel::Array(
                Seq::new(
                    items@.len(),
                    |i: int|
                        if 0 <= i < items@.len() {
                            model_of(items@[i])
                        } else {
                            JsonModel { shown: Seq::empty(), kind: KindModel::Null }
                        },
                ),
            ),
            JsonKind::Object(entries) => KindModel::Object(
                Seq::new(
                    entries@.len(),
                    |i: int|
                        if 0 <= i < entries@.len() {
                            (entries@[i].0@, model_of(entries@[i].1))
                        } else {
                            (Seq::empty(), JsonModel { shown: Seq::empty(), kind: KindModel::Null })
                        },
                ),
            ),
        },
    }
}

impl View for Json {
    type V = JsonModel;

    open spec fn view(&self) -> JsonModel {
        model_of(*self)
    }
}

/// A value of the `json` crate, carried as it is.
#[verifier::external_type_specification]
#[verifier::external_body]
pub struct ExJsonValue(json::JsonValue);

/// The `json` crate's reason for refusing a text, carried as it is.
#[verifier::external_type_specification]
#[verifier::external_body]
pub struct ExJsonError(json::Error);

/// The document that `json::parse` reads from `text`, or nothing where it
/// refuses the text.
pub uninterp spec fn parsed_document(text: Seq<char>) -> Option<JsonModel>;

/// The document that a value of the `json` crate holds.
pub uninterp spec fn document_of(value: json::JsonValue) -> JsonModel;

/// The text that `json::JsonValue::dump` writes for an object that holds
/// exactly these fields, in this order, each value a string.
pub uninterp spec fn dumped_fields(fields: Seq<(Seq<char>, Seq<char>)>) -> Seq<char>;

/// The longest run of digits that a line may hold.
pub const MAX_DIGIT_RUN: usize = 32767;

/// The byte is one of the ten decimal digits.
pub open spec fn is_digit(byte: u8) -> bool {
    48 <= byte <= 57
}

/// How many digits stand in a row just before position `n`.
pub open spec fn digit_run(bytes: Seq<u8>, n: int) -> nat
    decreases n,
{
    if n <= 0 || n > bytes.len() || !is_digit(bytes[n - 1]) {
        0
    } else {
        digit_run(bytes, n - 1) + 1
    }
}

/// Nowhere do more than `limit` digits stand in a row.
pub open spec fn digit_runs_within(bytes: Seq<u8>, limit: nat) -> bool {
    forall|n: int| 0 <= n <= bytes.len() ==> #[trigger] digit_run(bytes, n) <= limit
}

/// A text that may be handed to the parser: no run of digits in it is
/// longer than [`MAX_DIGIT_RUN`]. The parser counts the digits of a number
/// in sixteen bits and is not to be trusted beyond.
pub open spec fn readable(text: Seq<char>) -> bool {
    digit_runs_within(vstd::utf8::encode_utf8(text), MAX_DIGIT_RUN as nat)
}

/// The document of a line: what the parser reads from a readable text, and
/// nothing for any other.
pub open spec fn line_document(text: Seq<char>) -> Option<JsonModel> {
    if readable(text) {
        parsed_document(text)
    } else {
        None
    }
}

/// Calls `json::parse`. Whether the text is accepted, and the document read
/// from it, depend on the text alone. Texts with longer runs of digits are
/// kept from it: on a number with tens of thousands of digits its count of
/// them overflows.
#[verifier::external_body]
fn parse_value(text: &str) -> (r: Result<json::JsonValue, json::Error>)
    requires
        readable(text@),
    ensures
        r is Ok <==> parsed_document(text@) is Some,
        r is Ok ==> parsed_document(text@) == Some(document_of(r->Ok_0)),
{
    json::parse(text)
}

/// Copies a value of the `json` crate into a [`Json`] document, variant by
/// variant: the text from its `Display`, a number's small value from
/// `as_u8`, an array's members and an object's entries in their order.
#[verifier::external_body]
fn lift(value: &json::JsonValue) -> (r: Json)
    ensures
        r@ == document_of(*value),
{
    let kind = match value {
        json::JsonValue::Null => JsonKind::Null,
        json::JsonValue::Short(_) | json::JsonValue::String(_) => JsonKind::Text,
        json::JsonValue::Number(_) => JsonKind::Number(value.as_u8()),
        json::JsonValue::Boolean(flag) => JsonKind::Boolean(*flag),
        json::JsonValue::Array(items) => JsonKind::Array(items.iter().map(lift).collect()),
        json::JsonValue::Object(object) => JsonKind::Object(
            object.iter().map(|(key, item)| (key.to_string(), lift(item))).collect(),
        ),
    };
    Json { shown: value.to_string(), kind }
}

/// The document is an object, and each of its values is a string.
pub open spec fn text_object(doc: JsonModel) -> bool {
    doc.kind is Object && forall|i: int|
        0 <= i < doc.kind->Object_0.len() ==> (#[trigger] doc.kind->Object_0[i]).1.kind is Text
}

/// The fields of such an object: its keys, each with the characters of its
/// value, in order.
pub open spec fn text_fields(doc: JsonModel) -> Seq<(Seq<char>, Seq<char>)> {
    doc.kind->Object_0.map_values(|entry: (Seq<char>, JsonModel)| (entry.0, entry.1.shown))
}

/// The position of the first field under `key`, from position `from` on.
pub open spec fn field_index(fields: Seq<(Seq<char>, Seq<char>)>, key: Seq<char>, from: int) -> Option<
    int,
>
    decreases fields.len() - from,
{
    if from < 0 || from >= fields.len() {
        None
    } else if fields[from].0 == key {
        Some(from)
    } else {
        field_index(fields, key, from + 1)
    }
}

/// The fields after `key` is set to `value`: a field under that key takes
/// the new value where it stands, and a new key goes to the end.
pub open spec fn with_field(fields: Seq<(Seq<char>, Seq<char>)>, key: Seq<char>, value: Seq<char>) -> Seq<
    (Seq<char>, Seq<char>),
> {
    match field_index(fields, key, 0) {
        Some(at) => fields.update(at, (key, value)),
        None => fields.push((key, value)),
    }
}

/// The fields that an object holds once each of `fields` has been set in
/// turn: a key set twice keeps its first place and its last value.
pub open spec fn settled(fields: Seq<(Seq<char>, Seq<char>)>) -> Seq<(Seq<char>, Seq<char>)>
    decreases fields.len(),
{
    if fields.len() == 0 {
        Seq::empty()
    } else {
        with_field(settled(fields.drop_last()), fields.last().0, fields.last().1)
    }
}

/// Calls `json::JsonValue::new_object`: an object without fields.
#[verifier::external_body]
fn new_object() -> (r: json::JsonValue)
    ensures
        text_object(document_of(r)),
        text_fields(document_of(r)) == Seq::<(Seq<char>, Seq<char>)>::empty(),
{
    json::JsonValue::new_object()
}

/// Sets a field of an object by the `json` crate's index assignment, the
/// value made a JSON string by its `From<&str>`. A field under the key takes
/// the new value where it stands; a new key is added behind the others.
#[verifier::external_body]
fn set_field(object: &mut json::JsonValue, key: &str, value: &str)
    requires
        text_object(document_of(*old(object))),
    ensures
        text_object(document_of(*final(object))),
        text_fields(document_of(*final(object))) == with_field(
            text_fields(document_of(*old(object))),
            key@,
            value@,
        ),
{
    object[key] = value.into();
}

/// Calls `json::JsonValue::dump` on an object of string fields. The text
/// depends on the fields and their order alone.
#[verifier::external_body]
fn dump_object(object: &json::JsonValue) -> (r: String)
    requires
        text_object(document_of(*object)),
    ensures
        r@ == dumped_fields(text_fields(document_of(*object))),
{
    object.dump()
}

/// The keys and values of a field list, as character sequences.
pub open spec fn fields_of(fields: Seq<(String, String)>) -> Seq<(Seq<char>, Seq<char>)> {
    fields.map_values(|f: (String, String)| (f.0@, f.1@))
}

/// The line that carries `fields`: the JSON object that holds them once
/// each has been set in turn, and a newline.
pub open spec fn message_line(fields: Seq<(Seq<char>, Seq<char>)>) -> Seq<char> {
    dumped_fields(settled(fields)).push('\n')
}

/// The bytes of the line that carries `fields`.
pub open spec fn message_bytes(fields: Seq<(Seq<char>, Seq<char>)>) -> Seq<u8> {
    vstd::utf8::encode_utf8(message_line(fields))
}

/// The bytes of `text` followed by a newline.
pub fn frame_line(text: String) -> (r: Vec<u8>)
    ensures
        r@ == vstd::utf8::encode_utf8(text@.push('\n')),
{
    let mut line: String = text;
    line.push('\n');
    line.as_str().as_bytes_vec()
}

/// Encodes the fields as one flat JSON object on a line of its own.
pub fn prepare_message(message_components: Vec<(String, String)>) -> (r: Vec<u8>)
    ensures
        r@ == message_bytes(fields_of(message_components@)),
{
    let ghost fields = fields_of(message_components@);
    let mut object: json::JsonValue = new_object();
    let mut i: usize = 0;
    while i < message_components.len()
        invariant
            i <= message_components.len(),
            fields == fields_of(message_components@),
            text_object(document_of(object)),
            text_fields(document_of(object)) == settled(fields.take(i as int)),
        decreases message_components.len() - i,
    {
        proof {
            assert(fields.take(i + 1).drop_last() == fields.take(i as int));
            assert(fields.take(i + 1).last() == (
                message_components@[i as int].0@,
                message_components@[i as int].1@,
            ));
        }
        set_field(&mut object, message_components[i].0.as_str(), message_components[i].1.as_str());
        i += 1;
    }
    proof {
        assert(fields.take(message_components.len() as int) == fields);
    }
    frame_line(dump_object(&object))
}

/// What a line decodes to: the document read from it, which must be an
/// object.
pub open spec fn decoded(parsed: Option<JsonModel>) -> Result<JsonModel, ErrorModel> {
    match parsed {
        Some(doc) => if doc.kind is Object {
            Ok(doc)
        } else {
            Err(ErrorModel::MalformedMessage)
        },
        None => Err(ErrorModel::MalformedMessage),
    }
}

/// A result agrees with its model.
pub open spec fn document_is(r: Result<Json, SessionError>, m: Result<JsonModel, ErrorModel>) -> bool {
    match m {
        Ok(doc) => r is Ok && r->Ok_0@ == doc,
        Err(e) => r is Err && r->Err_0@ == e,
    }
}

/// Checks that a document read from a line is an object.
pub fn accept_document(doc: Json) -> (r: Result<Json, SessionError>)
    ensures
        document_is(r, decoded(Some(doc@))),
{
    match &doc.kind {
        JsonKind::Object(_) => Ok(doc),
        _ => Err(SessionError::MalformedMessage),
    }
}

/// Whether no run of digits in the line is longer than [`MAX_DIGIT_RUN`].
pub fn is_readable(line: &str) -> (r: bool)
    ensures
        r == readable(line@),
{
    let bytes: &[u8] = line.as_bytes();
    let mut run: usize = 0;
    let mut i: usize = 0;
    while i < bytes.len()
        invariant
            i <= bytes.len(),
            bytes@ == vstd::utf8::encode_utf8(line@),
            run == digit_run(bytes@, i as int),
            run <= MAX_DIGIT_RUN,
            forall|n: int| 0 <= n <= i ==> #[trigger] digit_run(bytes@, n) <= MAX_DIGIT_RUN,
        decreases bytes.len() - i,
    {
        let byte: u8 = bytes[i];
        if 48 <= byte && byte <= 57 {
            run += 1;
            if run > MAX_DIGIT_RUN {
                assert(digit_run(bytes@, i + 1) > MAX_DIGIT_RUN);
                return false;
            }
        } else {
            run = 0;
        }
        i += 1;
    }
    true
}

/// Decodes one line into a JSON object. A line with a run of more than
/// [`MAX_DIGIT_RUN`] digits is refused unread.
pub fn decode(line: &str) -> (r: Result<Json, SessionError>)
    ensures
        document_is(r, decoded(line_document(line@))),
{
    if !is_readable(line) {
        return Err(SessionError::MalformedMessage);
    }
    match parse_value(line) {
        Ok(value) => accept_document(lift(&value)),
        Err(_) => Err(SessionError::MalformedMessage),
    }
}

/// The value of the first entry under `key`, from position `from` on.
pub open spec fn entry_value(entries: Seq<(Seq<char>, JsonModel)>, key: Seq<char>, from: int) -> Option<
    JsonModel,
>
    decreases entries.len() - from,
{
    if from < 0 || from >= entries.len() {
        None
    } else if entries[from].0 == key {
        Some(entries[from].1)
    } else {
        entry_value(entries, key, from + 1)
    }
}

/// What an object holds under `key`; nothing where the key is missing or
/// the document is no object.
pub open spec fn field(doc: JsonModel, key: Seq<char>) -> Option<JsonModel> {
    match doc.kind {
        KindModel::Object(entries) => entry_value(entries, key, 0),
        _ => None,
    }
}

/// A field that must be there: missing, or null, it is an error that names
/// the key.
pub open spec fn required_field(doc: JsonModel, key: Seq<char>) -> Result<JsonModel, ErrorModel> {
    match field(doc, key) {
        Some(value) => if value.kind is Null {
            Err(ErrorModel::MissingField(key))
        } else {
            Ok(value)
        },
        None => Err(ErrorModel::MissingField(key)),
    }
}

/// The text of what an object holds under `key`; the text of null where
/// the key is missing.
pub open spec fn field_text(doc: JsonModel, key: Seq<char>) -> Seq<char> {
    match field(doc, key) {
        Some(value) => value.shown,
        None => "null"@,
    }
}

/// The entries of an object's model are the models of its entries.
pub proof fn lemma_object_entries(doc: Json)
    requires
        doc.kind is Object,
    ensures
        doc@.kind is Object,
        doc@.kind->Object_0.len() == doc.kind->Object_0@.len(),
        forall|i: int|
            0 <= i < doc.kind->Object_0@.len() ==> #[trigger] doc@.kind->Object_0[i] == (
                doc.kind->Object_0@[i].0@,
                doc.kind->Object_0@[i].1@,
            ),
{
}

/// The members of an array's model are the models of its members.
pub proof fn lemma_array_members(doc: Json)
    requires
        doc.kind is Array,
    ensures
        doc@.kind is Array,
        doc@.kind->Array_0.len() == doc.kind->Array_0@.len(),
        forall|i: int|
            0 <= i < doc.kind->Array_0@.len() ==> #[trigger] doc@.kind->Array_0[i]
                == doc.kind->Array_0@[i]@,
{
}

/// Looks `key` up in an object.
pub fn lookup<'a>(doc: &'a Json, key: &str) -> (r: Option<&'a Json>)
    ensures
        r is Some <==> field(doc@, key@) is Some,
        r is Some ==> field(doc@, key@) == Some(r->Some_0@),
{
    match &doc.kind {
        JsonKind::Object(entries) => {
            let ghost m = doc@.kind->Object_0;
            proof {
                lemma_object_entries(*doc);
            }
            let mut i: usize = 0;
            while i < entries.len()
                invariant
                    i <= entries.len(),
                    doc.kind == JsonKind::Object(*entries),
                    m == doc@.kind->Object_0,
                    m.len() == entries@.len(),
                    entry_value(m, key@, 0) == entry_value(m, key@, i as int),
                decreases entries.len() - i,
            {
                assert(m[i as int] == (entries@[i as int].0@, entries@[i as int].1@));
                if same_text(entries[i].0.as_str(), key) {
                    return Some(&entries[i].1);
                }
                i += 1;
            }
            None
        },
        _ => None,
    }
}

/// A reference to a document agrees with its model.
pub open spec fn found_is(r: Result<&Json, SessionError>, m: Result<JsonModel, ErrorModel>) -> bool {
    match m {
        Ok(doc) => r is Ok && r->Ok_0@ == doc,
        Err(e) => r is Err && r->Err_0@ == e,
    }
}

/// The value of a field that must be there: an error names the key where
/// the field is missing or null.
pub fn extract_json_field<'a>(json_object: &'a Json, expected_key: &str) -> (r: Result<
    &'a Json,
    SessionError,
>)
    ensures
        found_is(r, required_field(json_object@, expected_key@)),
{
    match lookup(json_object, expected_key) {
        Some(value) => match &value.kind {
            JsonKind::Null => Err(SessionError::MissingField(expected_key.to_owned())),
            _ => Ok(value),
        },
        None => Err(SessionError::MissingField(expected_key.to_owned())),
    }
}

/// The text of a field: the text of null where the field is missing.
pub fn text_of_field(doc: &Json, key: &str) -> (r: String)
    ensures
        r@ == field_text(doc@, key@),
{
    match lookup(doc, key) {
        Some(value) => value.shown.clone(),
        None => String::from_str("null"),
    }
}

/// No key occurs twice among the entries.
pub open spec fn distinct_keys(entries: Seq<(Seq<char>, JsonModel)>) -> bool {
    forall|i: int, j: int|
        0 <= i < j < entries.len() ==> (#[trigger] entries[i]).0 != (#[trigger] entries[j]).0
}

/// A lookup finds the first entry under the key from `from` on, and finds
/// nothing exactly where no entry from there on has the key.
pub proof fn lemma_entry_value(entries: Seq<(Seq<char>, JsonModel)>, key: Seq<char>, from: int)
    requires
        0 <= from,
    ensures
        entry_value(entries, key, from) is None <==> forall|i: int|
            from <= i < entries.len() ==> (#[trigger] entries[i]).0 != key,
        entry_value(entries, key, from) is Some ==> exists|i: int|
            from <= i < entries.len() && #[trigger] entries[i] == (
                key,
                entry_value(entries, key, from)->Some_0,
            ),
    decreases entries.len() - from,
{
    if from < entries.len() {
        if entries[from].0 == key {
            assert(entries[from] == (key, entry_value(entries, key, from)->Some_0));
        } else {
            lemma_entry_value(entries, key, from + 1);
            assert forall|i: int| from <= i < entries.len() && entry_value(entries, key, from) is None
                implies (#[trigger] entries[i]).0 != key by {
                if i > from {
                    assert(from + 1 <= i);
                }
            }
        }
    }
}

/// Among entries with distinct keys, a lookup finds the value of the one
/// entry under the key, wherever it stands.
pub proof fn lemma_entry_found(entries: Seq<(Seq<char>, JsonModel)>, i: int)
    requires
        distinct_keys(entries),
        0 <= i < entries.len(),
    ensures
        entry_value(entries, entries[i].0, 0) == Some(entries[i].1),
{
    let key = entries[i].0;
    lemma_entry_value(entries, key, 0);
    if entry_value(entries, key, 0) is Some {
        let t = choose|t: int|
            0 <= t < entries.len() && #[trigger] entries[t] == (key, entry_value(entries, key, 0)->Some_0);
        if t != i {
            if t < i {
                assert(entries[t].0 != entries[i].0);
            } else {
                assert(entries[i].0 != entries[t].0);
            }
        }
    } else {
        assert(entries[i].0 != key);
    }
}

/// What an object holds under a key does not depend on the order of its
/// fields: two objects with distinct keys and the same set of fields hold
/// the same under every key.
pub proof fn lookup_ignores_field_order(
    one: Seq<(Seq<char>, JsonModel)>,
    other: Seq<(Seq<char>, JsonModel)>,
    key: Seq<char>,
)
    requires
        distinct_keys(one),
        distinct_keys(other),
        forall|i: int| 0 <= i < one.len() ==> other.contains(#[trigger] one[i]),
        forall|i: int| 0 <= i < other.len() ==> one.contains(#[trigger] other[i]),
    ensures
        entry_value(one, key, 0) == entry_value(other, key, 0),
{
    lemma_entry_value(one, key, 0);
    lemma_entry_value(other, key, 0);
    if entry_value(one, key, 0) is Some {
        let t = choose|t: int|
            0 <= t < one.len() && #[trigger] one[t] == (key, entry_value(one, key, 0)->Some_0);
        assert(other.contains(one[t]));
        let u = choose|u: int| 0 <= u < other.len() && other[u] == one[t];
        lemma_entry_found(other, u);
    } else if entry_value(other, key, 0) is Some {
        let u = choose|u: int|
            0 <= u < other.len() && #[trigger] other[u] == (key, entry_value(other, key, 0)->Some_0);
        assert(one.contains(other[u]));
        let t = choose|t: int| 0 <= t < one.len() && one[t] == other[u];
        assert(one[t].0 == key);
    }
}

/// No key occurs twice among the fields.
pub open spec fn distinct_field_keys(fields: Seq<(Seq<char>, Seq<char>)>) -> bool {
    forall|i: int, j: int|
        0 <= i < j < fields.len() ==> (#[trigger] fields[i]).0 != (#[trigger] fields[j]).0
}

/// A key that no field from `from` on has is found at no position.
pub proof fn lemma_field_index_none(fields: Seq<(Seq<char>, Seq<char>)>, key: Seq<char>, from: int)
    requires
        0 <= from,
        forall|i: int| from <= i < fields.len() ==> (#[trigger] fields[i]).0 != key,
    ensures
        field_index(fields, key, from) is None,
    decreases fields.len() - from,
{
    if from < fields.len() {
        lemma_field_index_none(fields, key, from + 1);
    }
}

/// Fields with distinct keys are held as they are given: setting each in
/// turn loses none, adds none, alters none and keeps their order.
pub proof fn settled_keeps_distinct_fields(fields: Seq<(Seq<char>, Seq<char>)>)
    requires
        distinct_field_keys(fields),
    ensures
        settled(fields) == fields,
    decreases fields.len(),
{
    if fields.len() > 0 {
        let earlier = fields.drop_last();
        assert forall|i: int, j: int| 0 <= i < j < earlier.len() implies (#[trigger] earlier[i]).0 != (
        #[trigger] earlier[j]).0 by {
            assert(earlier[i] == fields[i]);
            assert(earlier[j] == fields[j]);
        }
        settled_keeps_distinct_fields(earlier);
        let last = fields.len() - 1;
        assert forall|i: int| 0 <= i < earlier.len() implies (#[trigger] earlier[i]).0
            != fields.last().0 by {
            assert(earlier[i] == fields[i]);
            assert(fields[i].0 != fields[last].0);
        }
        lemma_field_index_none(earlier, fields.last().0, 0);
        assert(earlier.push(fields.last()) =~= fields);
    }
}

/// In an object that holds string fields under distinct keys, each key is
/// found with the string given for it, and no other key is found.
pub proof fn fields_are_found_as_held(doc: JsonModel, key: Seq<char>)
    requires
        text_object(doc),
        distinct_field_keys(text_fields(doc)),
    ensures
        forall|i: int|
            0 <= i < text_fields(doc).len() ==> {
                let held = field(doc, (#[trigger] text_fields(doc)[i]).0);
                held is Some && held->Some_0.kind is Text && held->Some_0.shown == text_fields(doc)[i].1
            },
        (forall|i: int| 0 <= i < text_fields(doc).len() ==> (#[trigger] text_fields(doc)[i]).0 != key)
            ==> field(doc, key) is None,
{
    let entries = doc.kind->Object_0;
    let fields = text_fields(doc);
    assert forall|i: int, j: int| 0 <= i < j < entries.len() implies (#[trigger] entries[i]).0 != (
    #[trigger] entries[j]).0 by {
        assert(fields[i].0 == entries[i].0);
        assert(fields[j].0 == entries[j].0);
    }
    assert forall|i: int| 0 <= i < fields.len() implies {
        let held = field(doc, (#[trigger] fields[i]).0);
        held is Some && held->Some_0.kind is Text && held->Some_0.shown == fields[i].1
    } by {
        assert(fields[i].0 == entries[i].0);
        lemma_entry_found(entries, i);
        assert(entries[i].1.kind is Text);
    }
    if forall|i: int| 0 <= i < fields.len() ==> (#[trigger] fields[i]).0 != key {
        assert forall|i: int| 0 <= i < entries.len() implies (#[trigger] entries[i]).0 != key by {
            assert(fields[i].0 == entries[i].0);
        }
        lemma_entry_value(entries, key, 0);
    }
}

} // verus!
