//! Structured documents, the payload of widget values.
//!
//! A document is a `serde_json::Value`. This library only ever builds three
//! shapes of it: an empty object, an object with one more entry, and a string.
//! What those calls return is stated here over a model of the document and is
//! taken on trust from `serde_json`.

use vstd::prelude::*;

verus! {

/// `serde_json`'s document type, carried through as it is.
#[verifier::external_type_specification]
#[verifier::external_body]
pub struct ExJsonValue(serde_json::Value);

/// What a document holds, as far as this library looks into one.
pub enum Document {
    /// A string.
    Text(Seq<char>),
    /// An object: its entries by key.
    Object(Map<Seq<char>, Document>),
    /// Anything else: null, a boolean, a number or an array.
    Other,
}

/// The content of a `serde_json::Value`.
pub uninterp spec fn document_of(v: serde_json::Value) -> Document;

/// Builds `serde_json::Value::Object` around `serde_json::Map::new()`: an
/// object without entries.
#[verifier::external_body]
pub(crate) fn empty_object() -> (doc: serde_json::Value)
    ensures
        document_of(doc) == Document::Object(Map::empty()),
{
    serde_json::Value::Object(serde_json::Map::new())
}

/// Builds `serde_json::Value::String` around the text given.
#[verifier::external_body]
pub(crate) fn text_document(text: String) -> (doc: serde_json::Value)
    ensures
        document_of(doc) == Document::Text(text@),
{
    serde_json::Value::String(text)
}

/// Calls `serde_json::Map::insert` on the entries of an object, reached by
/// `serde_json::Value::as_object_mut`: afterwards the key maps to the value
/// given, whether or not it was present, and the other entries are as before.
#[verifier::external_body]
pub(crate) fn insert_entry(doc: &mut serde_json::Value, key: String, value: serde_json::Value)
    requires
        document_of(*old(doc)) is Object,
    ensures
        document_of(*final(doc)) == Document::Object(
            document_of(*old(doc))->Object_0.insert(key@, document_of(value)),
        ),
{
    doc.as_object_mut().unwrap().insert(key, value);
}

/// `clone` of a `serde_json::Value`: the copy holds what the value holds that
/// it was made from.
pub assume_specification[ <serde_json::Value as Clone>::clone ](doc: &serde_json::Value) -> (copy:
    serde_json::Value)
    ensures
        document_of(copy) == document_of(*doc),
;

} // verus!
