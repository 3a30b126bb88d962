//! JSON: values out of text, and text out of values.

use vstd::prelude::*;

use crate::number;
use crate::number::int_of;
use crate::text;
use crate::text::quoted;

verus! {

/// A JSON value.
#[derive(Debug)]
pub enum Json {
    Null,
    Boolean(bool),
    /// A number, as it is written.
    Number(String),
    Text(String),
    Array(Vec<Json>),
    Object(Vec<(String, Json)>),
}

/// A [`Json`] as a mathematical value.
pub enum Doc {
    Null,
    Boolean(bool),
    Number(Seq<char>),
    Text(Seq<char>),
    Array(Seq<Doc>),
    Object(Seq<(Seq<char>, Doc)>),
}

/// `serde_json::Value`, a parsed value.
#[verifier::external_type_specification]
#[verifier::external_body]
pub struct ExJsonValue(serde_json::Value);

/// What a `serde_json::Value` holds.
pub uninterp spec fn doc_of(value: serde_json::Value) -> Doc;

/// What `serde_json` reads out of a text, or why it cannot.
pub uninterp spec fn json_of(text: Seq<char>) -> Result<Doc, Seq<char>>;

/// The text is one JSON value.
pub uninterp spec fn is_json(text: Seq<char>) -> bool;

/// A string as JSON writes it.
pub uninterp spec fn json_string(text: Seq<char>) -> Seq<char>;

/// One level of a `serde_json::Value`.
pub enum Level {
    Null,
    Boolean(bool),
    Number(String),
    Text(String),
    Array(Vec<serde_json::Value>),
    Object(Vec<(String, serde_json::Value)>),
}

impl Level {
    pub open spec fn doc(self) -> Doc {
        match self {
            Level::Null => Doc::Null,
            Level::Boolean(b) => Doc::Boolean(b),
            Level::Number(s) => Doc::Number(s@),
            Level::Text(s) => Doc::Text(s@),
            Level::Array(items) => Doc::Array(items@.map_values(|v: serde_json::Value| doc_of(v))),
            Level::Object(entries) => Doc::Object(
                entries@.map_values(|e: (String, serde_json::Value)| (e.0@, doc_of(e.1))),
            ),
        }
    }
}

/// Reads a text with `serde_json::from_str`. What it holds, and which texts are
/// refused with what words, is `json_of`.
#[verifier::external_body]
fn read(text: &str) -> (out: Result<serde_json::Value, String>)
    ensures
        match out {
            Ok(value) => json_of(text@) == Ok::<Doc, Seq<char>>(doc_of(value)),
            Err(error) => json_of(text@) == Err::<Doc, Seq<char>>(error@),
        },
{
    serde_json::from_str::<serde_json::Value>(text).map_err(|error| error.to_string())
}

/// Takes one level of a `serde_json::Value` apart, by its variants. A number is
/// written out by its `Display`; an object gives its entries in its own order.
#[verifier::external_body]
fn level(value: serde_json::Value) -> (out: Level)
    ensures
        out.doc() == doc_of(value),
{
    match value {
        serde_json::Value::Null => Level::Null,
        serde_json::Value::Bool(b) => Level::Boolean(b),
        serde_json::Value::Number(n) => Level::Number(n.to_string()),
        serde_json::Value::String(s) => Level::Text(s),
        serde_json::Value::Array(items) => Level::Array(items),
        serde_json::Value::Object(entries) => Level::Object(entries.into_iter().collect()),
    }
}

/// `serde_json::from_str::<IgnoredAny>`: whether a text is JSON, without
/// keeping what it says.
#[verifier::external_body]
pub(crate) fn valid(text: &str) -> (out: bool)
    ensures
        out == is_json(text@),
{
    serde_json::from_str::<serde::de::IgnoredAny>(text).is_ok()
}

/// `serde_json::to_string` of a string: the string in quotes, with escapes. It
/// writes to memory, which does not fail, and leaves no control character as it
/// is. What an escape looks like is left unsaid.
#[verifier::external_body]
pub(crate) fn quote(text: &str) -> (out: Option<String>)
    ensures
        out is Some,
        out->0@ == json_string(text@),
        forall|i: int| 0 <= i < out->0@.len() ==> (#[trigger] out->0@[i]) as u32 >= 32,
{
    serde_json::to_string(text).ok()
}

/// A payload as it is stored: as it came where it is JSON, and as a JSON string
/// where it is not.
pub open spec fn stored(payload: Seq<char>) -> Seq<char> {
    if is_json(payload) {
        payload
    } else {
        json_string(payload)
    }
}

/// On one line of a file.
pub open spec fn is_on_one_line(text: Seq<char>) -> bool {
    forall|i: int| 0 <= i < text.len() ==> #[trigger] text[i] != '\n'
}

/// A payload as it is stored, so that a truncated response is captured rather
/// than lost. One that is no JSON never breaks a line.
pub fn stored_payload(payload: &str) -> (out: String)
    ensures
        out@ == stored(payload@),
        !is_json(payload@) ==> is_on_one_line(out@),
{
    if valid(payload) {
        payload.to_owned()
    } else {
        match quote(payload) {
            Some(quoted) => {
                assert forall|i: int| 0 <= i < quoted@.len() implies #[trigger] quoted@[i]
                    != '\n' by {
                    assert(quoted@[i] as u32 >= 32);
                }
                quoted
            },
            None => String::new(),
        }
    }
}

// --- whole values --------------------------------------------------------------

impl Json {
    /// The document that this value is.
    pub open spec fn doc(self) -> Doc
        decreases self,
    {
        match self {
            Json::Null => Doc::Null,
            Json::Boolean(b) => Doc::Boolean(b),
            Json::Number(s) => Doc::Number(s@),
            Json::Text(s) => Doc::Text(s@),
            Json::Array(items) => Doc::Array(
                Seq::new(
                    items@.len(),
                    |i: int|
                        if 0 <= i < items@.len() {
                            items@[i].doc()
                        } else {
                            arbitrary()
                        },
                ),
            ),
            Json::Object(entries) => Doc::Object(
                Seq::new(
                    entries@.len(),
                    |i: int|
                        if 0 <= i < entries@.len() {
                            (entries@[i].0@, entries@[i].1.doc())
                        } else {
                            arbitrary()
                        },
                ),
            ),
        }
    }
}

/// A `serde_json::Value` as a value of the library's own.
fn grow(value: serde_json::Value) -> (out: Json)
    ensures
        out.doc() == doc_of(value),
    decreases doc_of(value),
{
    let ghost whole = doc_of(value);
    match level(value) {
        Level::Null => Json::Null,
        Level::Boolean(b) => Json::Boolean(b),
        Level::Number(s) => Json::Number(s),
        Level::Text(s) => Json::Text(s),
        Level::Array(items) => {
            let ghost docs = items@.map_values(|v: serde_json::Value| doc_of(v));
            let mut rest: Vec<serde_json::Value> = items;
            let mut grown: Vec<Json> = Vec::new();
            while rest.len() > 0
                invariant
                    whole == doc_of(value),
                    whole == Doc::Array(docs),
                    grown@.len() + rest@.len() == docs.len(),
                    forall|i: int| 0 <= i < grown@.len() ==> (#[trigger] grown@[i]).doc() == docs[i],
                    forall|i: int|
                        0 <= i < rest@.len() ==> doc_of(#[trigger] rest@[i]) == docs[grown@.len()
                            + i],
                decreases rest.len(),
            {
                let ghost before = rest@;
                let item = rest.remove(0);
                proof {
                    assert(item == before[0]);
                    assert(doc_of(item) == docs[grown@.len() as int]);
                    assert(decreases_to!(whole => whole->Array_0));
                    assert(decreases_to!(whole->Array_0 => whole->Array_0[grown@.len() as int]));
                    assert forall|i: int| 0 <= i < rest@.len() implies doc_of(#[trigger] rest@[i])
                        == docs[grown@.len() + 1 + i] by {
                        assert(rest@[i] == before[i + 1]);
                    }
                }
                grown.push(grow(item));
            }
            let out = Json::Array(grown);
            proof {
                assert(out.doc()->Array_0 =~= docs);
            }
            out
        },
        Level::Object(entries) => {
            let ghost docs = entries@.map_values(
                |e: (String, serde_json::Value)| (e.0@, doc_of(e.1)),
            );
            let mut rest: Vec<(String, serde_json::Value)> = entries;
            let mut grown: Vec<(String, Json)> = Vec::new();
            while rest.len() > 0
                invariant
                    whole == doc_of(value),
                    whole == Doc::Object(docs),
                    grown@.len() + rest@.len() == docs.len(),
                    forall|i: int|
                        #![trigger grown@[i]]
                        0 <= i < grown@.len() ==> (grown@[i].0@, grown@[i].1.doc()) == docs[i],
                    forall|i: int|
                        #![trigger rest@[i]]
                        0 <= i < rest@.len() ==> (rest@[i].0@, doc_of(rest@[i].1))
                            == docs[grown@.len() + i],
                decreases rest.len(),
            {
                let ghost before = rest@;
                let (key, item) = rest.remove(0);
                proof {
                    assert((key, item) == before[0]);
                    assert((key@, doc_of(item)) == docs[grown@.len() as int]);
                    assert(decreases_to!(whole => whole->Object_0));
                    assert(decreases_to!(whole->Object_0 => whole->Object_0[grown@.len() as int]));
                    assert(decreases_to!(whole->Object_0[grown@.len() as int] =>
                        whole->Object_0[grown@.len() as int].1));
                    assert forall|i: int|
                        #![trigger rest@[i]]
                        0 <= i < rest@.len() implies (rest@[i].0@, doc_of(rest@[i].1))
                        == docs[grown@.len() + 1 + i] by {
                        assert(rest@[i] == before[i + 1]);
                    }
                }
                grown.push((key, grow(item)));
            }
            let out = Json::Object(grown);
            proof {
                assert(out.doc()->Object_0 =~= docs);
            }
            out
        },
    }
}

/// The value that a text writes, or what is wrong with it.
pub fn parse(text: &str) -> (out: Result<Json, String>)
    ensures
        match out {
            Ok(json) => json_of(text@) == Ok::<Doc, Seq<char>>(json.doc()),
            Err(error) => json_of(text@) == Err::<Doc, Seq<char>>(error@),
        },
{
    match read(text) {
        Ok(value) => Ok(grow(value)),
        Err(error) => Err(error),
    }
}

/// The entries of an object, as documents.
pub open spec fn fields_of(object: Seq<(String, Json)>) -> Seq<(Seq<char>, Doc)> {
    object.map_values(|e: (String, Json)| (e.0@, e.1.doc()))
}

/// The items of an array, as documents.
pub open spec fn docs_of(array: Seq<Json>) -> Seq<Doc> {
    array.map_values(|j: Json| j.doc())
}

/// An object is its entries, an array is its items.
pub proof fn doc_is_its_parts(json: Json)
    ensures
        json matches Json::Object(entries) ==> json.doc() == Doc::Object(fields_of(entries@)),
        json matches Json::Array(items) ==> json.doc() == Doc::Array(docs_of(items@)),
{
    if let Json::Object(entries) = json {
        assert(json.doc()->Object_0 =~= fields_of(entries@));
    }
    if let Json::Array(items) = json {
        assert(json.doc()->Array_0 =~= docs_of(items@));
    }
}

/// What an object holds under a key.
pub open spec fn field(object: Seq<(Seq<char>, Doc)>, key: Seq<char>) -> Option<Doc>
    decreases object.len(),
{
    if object.len() == 0 {
        None
    } else if object[0].0 == key {
        Some(object[0].1)
    } else {
        field(object.skip(1), key)
    }
}

/// What an object holds under `key`.
pub fn get<'a>(object: &'a Vec<(String, Json)>, key: &str) -> (out: Option<&'a Json>)
    ensures
        match out {
            Some(json) => field(fields_of(object@), key@) == Some(json.doc()),
            None => field(fields_of(object@), key@) is None,
        },
{
    let mut i: usize = 0;
    assert(fields_of(object@).skip(0) =~= fields_of(object@));
    while i < object.len()
        invariant
            i <= object.len(),
            field(fields_of(object@), key@) == field(fields_of(object@).skip(i as int), key@),
        decreases object.len() - i,
    {
        proof {
            assert(fields_of(object@).skip(i as int)[0] == (
                object@[i as int].0@,
                object@[i as int].1.doc(),
            ));
            assert(fields_of(object@).skip(i as int).skip(1) =~= fields_of(object@).skip(i + 1));
        }
        if text::same(object[i].0.as_str(), key) {
            return Some(&object[i].1);
        }
        i += 1;
    }
    None
}

// --- values that were not expected -------------------------------------------------

/// What a value is called where another was expected.
pub open spec fn described(doc: Doc) -> Seq<char> {
    match doc {
        Doc::Null => "null"@,
        Doc::Boolean(b) => if b {
            "boolean `true`"@
        } else {
            "boolean `false`"@
        },
        Doc::Number(s) => if int_of(s) is Some {
            "integer `"@ + s + "`"@
        } else {
            "floating point `"@ + s + "`"@
        },
        Doc::Text(s) => "string "@ + quoted(s),
        Doc::Array(_) => "sequence"@,
        Doc::Object(_) => "map"@,
    }
}

/// A value is of another type than was expected.
pub open spec fn mismatch(expected: Seq<char>, doc: Doc) -> Seq<char> {
    "invalid type: "@ + described(doc) + ", expected "@ + expected
}

/// A value is of the type that was expected, and does not fit.
pub open spec fn misfit(expected: Seq<char>, doc: Doc) -> Seq<char> {
    "invalid value: "@ + described(doc) + ", expected "@ + expected
}

fn describe(json: &Json) -> (out: String)
    ensures
        out@ == described(json.doc()),
{
    let mut out = String::new();
    match json {
        Json::Null => {
            out.append("null");
        },
        Json::Boolean(b) => if *b {
            out.append("boolean `true`");
        } else {
            out.append("boolean `false`");
        },
        Json::Number(s) => {
            if number::is_int(s.as_str()) {
                out.append("integer `");
            } else {
                out.append("floating point `");
            }
            out.append(s.as_str());
            out.append("`");
        },
        Json::Text(s) => {
            out.append("string ");
            text::push_quoted(&mut out, s.as_str());
        },
        Json::Array(_) => {
            out.append("sequence");
        },
        Json::Object(_) => {
            out.append("map");
        },
    }
    assert(out@ =~= described(json.doc()));
    out
}

pub fn say_mismatch(expected: &str, json: &Json) -> (out: String)
    ensures
        out@ == mismatch(expected@, json.doc()),
{
    let mut out = "invalid type: ".to_owned();
    out.append(describe(json).as_str());
    out.append(", expected ");
    out.append(expected);
    out
}

pub fn say_misfit(expected: &str, json: &Json) -> (out: String)
    ensures
        out@ == misfit(expected@, json.doc()),
{
    let mut out = "invalid value: ".to_owned();
    out.append(describe(json).as_str());
    out.append(", expected ");
    out.append(expected);
    out
}

/// A payload is stored as it came where it is JSON, and else as a string.
pub proof fn a_payload_is_stored_as_it_came(payload: Seq<char>)
    ensures
        is_json(payload) ==> stored(payload) == payload,
        !is_json(payload) ==> stored(payload) == json_string(payload),
{
}

/// What an object holds under a key is its first entry that has it, and nothing where none
/// has.
pub proof fn the_first_entry_counts(object: Seq<(Seq<char>, Doc)>, key: Seq<char>, i: int)
    requires
        0 <= i <= object.len(),
        forall|k: int| 0 <= k < i ==> (#[trigger] object[k]).0 != key,
        i < object.len() ==> object[i].0 == key,
    ensures
        i < object.len() ==> field(object, key) == Some(object[i].1),
        i == object.len() ==> field(object, key) is None,
    decreases object.len(),
{
    if i > 0 {
        assert(object[0].0 != key);
        let rest = object.skip(1);
        assert forall|k: int| 0 <= k < i - 1 implies (#[trigger] rest[k]).0 != key by {
            assert(object[k + 1].0 != key);
        }
        the_first_entry_counts(rest, key, i - 1);
    }
}

/// A value is described by its kind and by what it says.
pub proof fn a_value_is_described(
    s: Seq<char>,
    items: Seq<Doc>,
    entries: Seq<(Seq<char>, Doc)>,
    expected: Seq<char>,
    doc: Doc,
)
    ensures
        described(Doc::Null) == "null"@,
        described(Doc::Boolean(true)) == "boolean `true`"@,
        described(Doc::Boolean(false)) == "boolean `false`"@,
        int_of(s) is Some ==> described(Doc::Number(s)) == "integer `"@ + s + "`"@,
        int_of(s) is None ==> described(Doc::Number(s)) == "floating point `"@ + s + "`"@,
        described(Doc::Text(s)) == "string "@ + quoted(s),
        described(Doc::Array(items)) == "sequence"@,
        described(Doc::Object(entries)) == "map"@,
        mismatch(expected, doc) == "invalid type: "@ + described(doc) + ", expected "@ + expected,
        misfit(expected, doc) == "invalid value: "@ + described(doc) + ", expected "@ + expected,
{
}

} // verus!
