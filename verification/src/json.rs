//! JSON records, and what the companion looks up in a JSON value.

use serde_json::Value;
use vstd::prelude::*;

use crate::error::{ErrorKind, FramingError};
use crate::laws;
use crate::record;
use crate::record::{read_record, write_record};

verus! {

#[verifier::external_type_specification]
#[verifier::external_body]
pub struct ExternalJsonValue(serde_json::Value);

#[verifier::external_type_specification]
#[verifier::external_body]
pub struct ExternalJsonError(serde_json::Error);

/// What a JSON value holds, as the bytes of its compact text. Two values with
/// the same text are equal.
pub uninterp spec fn json_text(value: serde_json::Value) -> Seq<u8>;

/// The members that `Value::get` finds in the JSON object with this compact
/// text, each as its own compact text; nothing for the text of another value.
pub uninterp spec fn json_members(text: Seq<u8>) -> Map<Seq<char>, Seq<u8>>;

/// What `serde_json::from_slice` reads in these bytes, as the compact text of
/// the value; nothing where they are not the JSON text of a value.
pub uninterp spec fn json_reading(payload: Seq<u8>) -> Option<Seq<u8>>;

/// The string that `Value::as_str` finds in the value with this compact text:
/// nothing where the value is not a string.
pub uninterp spec fn json_string(text: Seq<u8>) -> Option<Seq<char>>;

/// Where a byte stands in a JSON text.
pub enum TextPlace {
    /// Outside of every string.
    Outside,
    /// In a string.
    Inside,
    /// In a string, right behind a backslash.
    Escaped,
}

/// Where the byte at `index` of a JSON text stands.
pub open spec fn place_at(text: Seq<u8>, index: int) -> TextPlace
    decreases index,
{
    if index <= 0 {
        TextPlace::Outside
    } else {
        let before = text[index - 1];
        match place_at(text, index - 1) {
            TextPlace::Outside => if before == 0x22 {
                TextPlace::Inside
            } else {
                TextPlace::Outside
            },
            TextPlace::Inside => if before == 0x22 {
                TextPlace::Outside
            } else if before == 0x5c {
                TextPlace::Escaped
            } else {
                TextPlace::Inside
            },
            TextPlace::Escaped => TextPlace::Inside,
        }
    }
}

/// How many arrays and objects of a JSON text are open at `index`.
pub open spec fn depth_at(text: Seq<u8>, index: int) -> int
    decreases index,
{
    if index <= 0 {
        0
    } else {
        let before = text[index - 1];
        let depth = depth_at(text, index - 1);
        if !(place_at(text, index - 1) is Outside) {
            depth
        } else if before == 0x5b || before == 0x7b {
            depth + 1
        } else if before == 0x5d || before == 0x7d {
            depth - 1
        } else {
            depth
        }
    }
}

/// Whether a JSON text holds a number with a fraction or an exponent: a digit
/// outside of strings, right before a point or an `e`.
pub open spec fn holds_fraction(text: Seq<u8>) -> bool {
    exists|i: int|
        0 <= i < text.len() - 1 && (#[trigger] place_at(text, i)) is Outside && 0x30 <= text[i]
            <= 0x39 && (text[i + 1] == 0x2e || text[i + 1] == 0x65)
}

/// Whether a JSON text holds no number with a fraction or an exponent, and
/// nests no deeper than the reader follows.
pub open spec fn reads_back_exactly(text: Seq<u8>) -> bool {
    &&& !holds_fraction(text)
    &&& forall|i: int| 0 <= i <= text.len() ==> #[trigger] depth_at(text, i) < 128
}

/// `serde_json::to_vec` on a JSON value: the bytes of its compact text. It
/// cannot fail there, as such a value only has string keys, and no value has an
/// empty text. Read back, the text gives the value again where it holds no
/// number with a fraction or an exponent and is not nested too deeply; of the
/// other texts nothing is claimed, as a fraction may be read with a rounding
/// error.
#[verifier::external_body]
fn value_to_vec(value: &Value) -> (bytes: Result<Vec<u8>, serde_json::Error>)
    ensures
        bytes is Ok,
        bytes->Ok_0@ == json_text(*value),
        bytes->Ok_0@.len() > 0,
        reads_back_exactly(bytes->Ok_0@) ==> json_reading(bytes->Ok_0@) == Some(json_text(*value)),
{
    serde_json::to_vec(value)
}

/// `serde_json::from_slice` to a JSON value: it gives the value that the bytes
/// spell, or an error where they spell none. Which error is not said.
#[verifier::external_body]
fn value_from_slice(payload: &[u8]) -> (value: Result<Value, serde_json::Error>)
    ensures
        match value {
            Ok(read) => json_reading(payload@) == Some(json_text(read)),
            Err(_) => json_reading(payload@) is None,
        },
{
    serde_json::from_slice(payload)
}

/// `Value::get` with a string: the member of an object under that key, or
/// nothing where the value is no object or lacks the key.
#[verifier::external_body]
fn value_get<'a>(value: &'a Value, key: &str) -> (member: Option<&'a Value>)
    ensures
        match member {
            Some(found) => json_members(json_text(*value)).contains_pair(key@, json_text(*found)),
            None => !json_members(json_text(*value)).contains_key(key@),
        },
{
    value.get(key)
}

/// `Value::as_str`: the text of a JSON string, nothing for another value.
pub assume_specification[ serde_json::Value::as_str ](value: &serde_json::Value) -> (string: Option<
    &str,
>)
    ensures
        match string {
            Some(found) => json_string(json_text(*value)) == Some(found@),
            None => json_string(json_text(*value)) is None,
        },
;

/// The string that a JSON object holds under a key, if it holds one.
pub open spec fn text_member(value: Value, key: Seq<char>) -> Option<Seq<char>> {
    let members = json_members(json_text(value));
    if members.contains_key(key) {
        json_string(members[key])
    } else {
        None
    }
}

/// Looks up a string in a JSON object. There is none where the value is no
/// object, lacks the key, or holds something else under it.
pub fn lookup_text<'a>(value: &'a Value, key: &str) -> (text: Option<&'a str>)
    ensures
        match text {
            Some(found) => text_member(*value, key@) == Some(found@),
            None => text_member(*value, key@) is None,
        },
{
    match value_get(value, key) {
        Some(member) => member.as_str(),
        None => None,
    }
}

/// A failure to read or write a JSON record.
#[derive(Debug)]
pub enum RecordError {
    /// The record itself is at fault.
    Framing(FramingError),
    /// The payload is not the JSON text of a value.
    Json(serde_json::Error),
}

impl RecordError {
    /// The class of this failure.
    pub open spec fn kind_spec(self) -> ErrorKind {
        match self {
            RecordError::Framing(error) => error.kind_spec(),
            RecordError::Json(_) => ErrorKind::Other,
        }
    }

    /// Returns the class of this failure.
    pub fn kind(&self) -> (kind: ErrorKind)
        ensures
            kind == self.kind_spec(),
    {
        match self {
            RecordError::Framing(error) => error.kind(),
            RecordError::Json(_) => ErrorKind::Other,
        }
    }
}

/// What reading a record gives, once its payload has been parsed.
pub fn parsed_record(parsed: Result<Value, serde_json::Error>) -> (record: Result<
    Option<Value>,
    RecordError,
>)
    ensures
        match parsed {
            Ok(value) => record == Ok::<Option<Value>, RecordError>(Some(value)),
            Err(error) => record == Err::<Option<Value>, RecordError>(RecordError::Json(error)),
        },
{
    match parsed {
        Ok(value) => Ok(Some(value)),
        Err(error) => Err(RecordError::Json(error)),
    }
}

/// Reads one JSON record off the front of `reader`, or nothing at the end of
/// the stream. A payload that is not JSON is taken off the stream too.
pub fn read_json_record(reader: &mut &[u8]) -> (value: Result<Option<Value>, RecordError>)
    ensures
        match record::record_at(old(reader)@).0 {
            Ok(None) => value == Ok::<Option<Value>, RecordError>(None),
            Ok(Some(payload)) => match json_reading(payload) {
                Some(text) => value matches Ok(Some(read)) && json_text(read) == text,
                None => value matches Err(RecordError::Json(_)),
            },
            Err(error) => value == Err::<Option<Value>, RecordError>(RecordError::Framing(error)),
        },
        final(reader)@ == record::record_at(old(reader)@).1,
{
    match read_record(reader) {
        Ok(Some(payload)) => parsed_record(value_from_slice(payload.as_slice())),
        Ok(None) => Ok(None),
        Err(error) => Err(RecordError::Framing(error)),
    }
}

/// Appends a JSON record to `writer`. Whatever follows it, the record is read
/// back as the text of the value; and that text is read as the value again,
/// where it holds no number with a fraction or an exponent and is not nested
/// too deeply.
pub fn write_json_record(writer: &mut Vec<u8>, value: &Value) -> (written: Result<(), RecordError>)
    ensures
        written == Ok::<(), RecordError>(()),
        final(writer)@ == old(writer)@ + record::record_bytes(json_text(*value)),
        forall|rest: Seq<u8>|
            #[trigger] record::record_at(record::record_bytes(json_text(*value)) + rest) == (
                Ok::<Option<Seq<u8>>, FramingError>(Some(json_text(*value))),
                rest,
            ),
        reads_back_exactly(json_text(*value)) ==> json_reading(json_text(*value)) == Some(
            json_text(*value),
        ),
{
    let payload = match value_to_vec(value) {
        Ok(payload) => payload,
        Err(error) => { return Err(RecordError::Json(error)); },
    };
    proof {
        assert forall|rest: Seq<u8>|
            #[trigger] record::record_at(record::record_bytes(json_text(*value)) + rest) == (
                Ok::<Option<Seq<u8>>, FramingError>(Some(json_text(*value))),
                rest,
            ) by {
            laws::record_round_trips(json_text(*value), rest);
        }
    }
    match write_record(writer, payload.as_slice()) {
        Ok(()) => Ok(()),
        Err(error) => Err(RecordError::Framing(error)),
    }
}

/// A lookup finds a string exactly where the object has a member under the key
/// and that member is this string.
pub proof fn lookup_finds_string_members(value: Value, key: Seq<char>, found: Seq<char>)
    ensures
        text_member(value, key) == Some(found) <==> json_members(json_text(value)).contains_key(key)
            && json_string(json_members(json_text(value))[key]) == Some(found),
{
}

} // verus!
