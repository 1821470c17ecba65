//! JSON documents as the analyzer's replies hold them.
//!
//! Reading JSON is left to `serde_json`. A document is a JSON object. What
//! comes back is kept as the list of its members, each value reduced to what
//! the rest of the crate reads: a flag, a number, a text, or something else.

use vstd::prelude::*;
use crate::text::same_str;

verus! {

/// The value of a member.
#[derive(Debug, Clone, PartialEq, Eq)]
pub enum JsonField {
    /// `true` or `false`.
    Flag(bool),
    /// A number, as the bits of the double that it is read as.
    Number(u64),
    /// A string.
    Text(String),
    /// `null`, an array or an object.
    Other,
}

/// A member of the outermost object.
#[derive(Debug, Clone, PartialEq, Eq)]
pub struct JsonEntry {
    pub key: String,
    pub value: JsonField,
}

/// The value of a member, as contracts see it.
pub enum FieldValue {
    Flag(bool),
    Number(u64),
    Text(Seq<char>),
    Other,
}

/// A member, as contracts see it.
pub struct Member {
    pub key: Seq<char>,
    pub value: FieldValue,
}

impl View for JsonField {
    type V = FieldValue;

    open spec fn view(&self) -> FieldValue {
        match self {
            JsonField::Flag(b) => FieldValue::Flag(*b),
            JsonField::Number(n) => FieldValue::Number(*n),
            JsonField::Text(t) => FieldValue::Text(t@),
            JsonField::Other => FieldValue::Other,
        }
    }
}

impl View for JsonEntry {
    type V = Member;

    open spec fn view(&self) -> Member {
        Member { key: self.key@, value: self.value@ }
    }
}

/// The members of a list of entries.
pub open spec fn members(entries: Seq<JsonEntry>) -> Seq<Member> {
    Seq::new(entries.len(), |i: int| entries[i]@)
}

/// The members of a parsed document, if there is one.
pub open spec fn parsed_members(doc: Option<Vec<JsonEntry>>) -> Option<Seq<Member>> {
    match doc {
        Some(entries) => Some(members(entries@)),
        None => None,
    }
}

/// What a text reads as.
#[derive(Debug, Clone, PartialEq, Eq)]
pub enum JsonReading {
    /// A JSON object, with its members.
    Object(Vec<JsonEntry>),
    /// A JSON value of another kind: `null`, a flag, a number, a string or an array.
    Other,
    /// No JSON value.
    Invalid,
}

/// What a text reads as, as contracts see it.
pub enum ReadingView {
    Object(Seq<Member>),
    Other,
    Invalid,
}

impl View for JsonReading {
    type V = ReadingView;

    open spec fn view(&self) -> ReadingView {
        match self {
            JsonReading::Object(entries) => ReadingView::Object(members(entries@)),
            JsonReading::Other => ReadingView::Other,
            JsonReading::Invalid => ReadingView::Invalid,
        }
    }
}

/// What `serde_json` makes of a text: the kind of JSON value that the text
/// is, with its members where it is an object.
pub uninterp spec fn json_reading(text: Seq<char>) -> ReadingView;

/// Calls `serde_json::from_str` for a `serde_json::Value` and hands out what
/// came back: the members of an object, that it was a value of another kind,
/// or that it was no value. The claim: the outcome depends on the characters
/// of the text alone.
#[verifier::external_body]
fn read_json(text: &str) -> (reading: JsonReading)
    ensures
        reading@ == json_reading(text@),
{
    let map = match serde_json::from_str::<serde_json::Value>(text) {
        Ok(serde_json::Value::Object(map)) => map,
        Ok(_) => return JsonReading::Other,
        Err(_) => return JsonReading::Invalid,
    };
    let mut entries = Vec::new();
    for (key, item) in map {
        entries.push(JsonEntry { key, value: match (item.as_f64(), item) {
            (_, serde_json::Value::Bool(b)) => JsonField::Flag(b),
            (Some(x), serde_json::Value::Number(_)) => JsonField::Number(x.to_bits()),
            (_, serde_json::Value::String(s)) => JsonField::Text(s),
            _ => JsonField::Other,
        } });
    }
    JsonReading::Object(entries)
}

/// The document that a reading holds: only a JSON object is a document.
pub open spec fn document_of(reading: ReadingView) -> Option<Seq<Member>> {
    match reading {
        ReadingView::Object(doc) => Some(doc),
        _ => None,
    }
}

/// The document that a text is: the members of the JSON object that the text
/// is, or nothing where the text is not one JSON object.
pub open spec fn json_document(text: Seq<char>) -> Option<Seq<Member>> {
    document_of(json_reading(text))
}

/// The document that a reading holds.
pub fn document_in_reading(reading: JsonReading) -> (doc: Option<Vec<JsonEntry>>)
    ensures
        parsed_members(doc) == document_of(reading@),
{
    match reading {
        JsonReading::Object(entries) => Some(entries),
        _ => None,
    }
}

/// The document that a text is.
pub fn parse_document(text: &str) -> (doc: Option<Vec<JsonEntry>>)
    ensures
        parsed_members(doc) == json_document(text@),
{
    document_in_reading(read_json(text))
}

/// The value of the first member with the key `key`.
pub open spec fn lookup(doc: Seq<Member>, key: Seq<char>) -> Option<FieldValue>
    decreases doc.len(),
{
    if doc.len() == 0 {
        None
    } else if doc[0].key == key {
        Some(doc[0].value)
    } else {
        lookup(doc.drop_first(), key)
    }
}

/// The flag under `key`, if the member is there and is a flag.
pub open spec fn flag_at(doc: Seq<Member>, key: Seq<char>) -> Option<bool> {
    match lookup(doc, key) {
        Some(FieldValue::Flag(b)) => Some(b),
        _ => None,
    }
}

/// The text under `key`, if the member is there and is a string.
pub open spec fn text_at(doc: Seq<Member>, key: Seq<char>) -> Option<Seq<char>> {
    match lookup(doc, key) {
        Some(FieldValue::Text(t)) => Some(t),
        _ => None,
    }
}

/// The entry of the first member with the key `key`.
pub fn find_entry<'a>(doc: &'a Vec<JsonEntry>, key: &str) -> (r: Option<&'a JsonField>)
    ensures
        match r {
            Some(f) => lookup(members(doc@), key@) == Some(f@),
            None => lookup(members(doc@), key@) is None,
        },
{
    let mut i: usize = 0;
    proof {
        assert(members(doc@).skip(0) == members(doc@));
    }
    while i < doc.len()
        invariant
            i <= doc.len(),
            lookup(members(doc@), key@) == lookup(members(doc@).skip(i as int), key@),
        decreases doc.len() - i,
    {
        if same_str(doc[i].key.as_str(), key) {
            return Some(&doc[i].value);
        }
        proof {
            assert(members(doc@).skip(i as int).drop_first() == members(doc@).skip(i + 1));
        }
        i += 1;
    }
    None
}

/// The flag under `key`.
pub fn find_flag(doc: &Vec<JsonEntry>, key: &str) -> (r: Option<bool>)
    ensures
        r == flag_at(members(doc@), key@),
{
    match find_entry(doc, key) {
        Some(JsonField::Flag(b)) => Some(*b),
        _ => None,
    }
}

/// The text under `key`.
pub fn find_text<'a>(doc: &'a Vec<JsonEntry>, key: &str) -> (r: Option<&'a String>)
    ensures
        match r {
            Some(t) => text_at(members(doc@), key@) == Some(t@),
            None => text_at(members(doc@), key@) is None,
        },
{
    match find_entry(doc, key) {
        Some(JsonField::Text(t)) => Some(t),
        _ => None,
    }
}

} // verus!
