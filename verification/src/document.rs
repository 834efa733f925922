//! JSON documents, as the `json` crate holds them.
//!
//! A document is a value of the crate's `JsonValue`. The functions that
//! call the crate state, without proof, what the call in their body does,
//! over the names below for what a document holds. The rest of the library
//! reads and builds documents through these functions only.

use crate::text::{digit_runs_within, has_digit_runs_within};
use json::number::Number;
use json::JsonValue;
use vstd::prelude::*;

verus! {

/// The `json` crate's document. The proofs see nothing inside it.
#[verifier::external_type_specification]
#[verifier::external_body]
pub struct ExJsonValue(json::JsonValue);

/// The `json` crate's number. The proofs see nothing inside it.
#[verifier::external_type_specification]
#[verifier::external_body]
pub struct ExNumber(json::number::Number);

/// The longest run of digits in a text that is handed to the parser. The
/// parser counts the digits of a fraction in sixteen bits.
pub const LONGEST_DIGIT_RUN: usize = 32768;

/// Whether a text may be handed to the parser: no run of digits in it is
/// longer than `LONGEST_DIGIT_RUN`.
pub open spec fn parseable(text: Seq<char>) -> bool {
    digit_runs_within(text, LONGEST_DIGIT_RUN as nat)
}

/// The document that `json::parse` makes of a text, or nothing where it
/// reports an error.
pub uninterp spec fn parsed(text: Seq<char>) -> Option<JsonValue>;

/// The document that a text is read as: what the parser makes of it, and
/// nothing for a text that may not be handed to the parser.
pub open spec fn read_as(text: Seq<char>) -> Option<JsonValue> {
    if parseable(text) {
        parsed(text)
    } else {
        None
    }
}

/// The text that `JsonValue::dump` writes for a document.
pub uninterp spec fn dumped(doc: JsonValue) -> Seq<char>;

/// The keys of an object, in the order in which `JsonValue::entries` walks
/// them: the order in which they were first inserted. Empty for a document
/// that is no object.
pub uninterp spec fn keys_of(doc: JsonValue) -> Seq<Seq<char>>;

/// The document that an object holds under a key: what indexing by that key
/// gives.
pub uninterp spec fn member_of(doc: JsonValue, key: Seq<char>) -> JsonValue;

/// The members of an array, in the order in which `JsonValue::members` walks
/// them. Empty for a document that is no array.
pub uninterp spec fn items_of(doc: JsonValue) -> Seq<JsonValue>;

/// The text of a string document, as `JsonValue::as_str` gives it; nothing
/// for a document that is no string.
pub uninterp spec fn text_of(doc: JsonValue) -> Option<Seq<char>>;

/// The text that a document's `Display` writes.
pub uninterp spec fn shown(doc: JsonValue) -> Seq<char>;

/// Whether `JsonValue::is_empty` holds of a document: it does of null, of
/// `false`, of a number that is zero or not a number, of the empty string,
/// and of an array or an object that holds nothing.
pub uninterp spec fn blank(doc: JsonValue) -> bool;

/// Whether a document is null, as `JsonValue::is_null` tells it.
pub uninterp spec fn null(doc: JsonValue) -> bool;

/// The number of a number document, as `JsonValue::as_number` gives it;
/// nothing for a document that is no number.
pub uninterp spec fn number_in(doc: JsonValue) -> Option<Number>;

/// The mantissa of a number: the second of the parts that `Number::as_parts`
/// gives.
pub uninterp spec fn mantissa_part(number: Number) -> u64;

/// The mantissa of a number document; nothing for a document that is no
/// number.
pub open spec fn mantissa_of(doc: JsonValue) -> Option<u64> {
    match number_in(doc) {
        Some(number) => Some(mantissa_part(number)),
        None => None,
    }
}

/// Calls `json::parse`. The result is a function of the text alone; an
/// error is handed on as `None`. The parser lowers a sixteen-bit exponent
/// once for each digit of a fraction, so a text with a longer run of digits
/// is not admitted.
#[verifier::external_body]
fn parse(text: &str) -> (doc: Option<JsonValue>)
    requires
        parseable(text@),
    ensures
        doc == parsed(text@),
{
    json::parse(text).ok()
}

/// Reads a text as a document: the text is handed to the parser unless it
/// holds a run of digits that the parser cannot count, and then it is read
/// as nothing, like a text that is no JSON.
pub(crate) fn read(text: &str) -> (doc: Option<JsonValue>)
    ensures
        doc == read_as(text@),
{
    if has_digit_runs_within(text, LONGEST_DIGIT_RUN) {
        parse(text)
    } else {
        None
    }
}

/// Calls `JsonValue::dump`, which writes the document as JSON text.
#[verifier::external_body]
pub(crate) fn dump(doc: &JsonValue) -> (text: String)
    ensures
        text@ == dumped(*doc),
{
    doc.dump()
}

/// Walks `JsonValue::entries` and hands out the keys. An object holds each
/// key once: inserting under a key that is there replaces its value.
#[verifier::external_body]
pub(crate) fn keys(doc: &JsonValue) -> (keys: Vec<String>)
    ensures
        keys.deep_view() == keys_of(*doc),
        keys.deep_view().no_duplicates(),
{
    doc.entries().map(|(key, _)| key.to_owned()).collect()
}

/// Indexes the document by `key`.
#[verifier::external_body]
pub(crate) fn member<'a>(doc: &'a JsonValue, key: &str) -> (value: &'a JsonValue)
    ensures
        *value == member_of(*doc, key@),
{
    &doc[key]
}

/// Walks `JsonValue::members` and hands out the members.
#[verifier::external_body]
pub(crate) fn items<'a>(doc: &'a JsonValue) -> (items: Vec<&'a JsonValue>)
    ensures
        items@.len() == items_of(*doc).len(),
        forall|i: int| 0 <= i < items@.len() ==> *items@[i] == items_of(*doc)[i],
{
    doc.members().collect()
}

/// Calls `JsonValue::as_str` and copies the text, if there is one.
#[verifier::external_body]
pub(crate) fn text(doc: &JsonValue) -> (text: Option<String>)
    ensures
        match text {
            Some(t) => text_of(*doc) == Some(t@),
            None => text_of(*doc) is None,
        },
{
    match doc.as_str() {
        Some(t) => Some(t.to_owned()),
        None => None,
    }
}

/// Calls `JsonValue::is_empty`.
#[verifier::external_body]
pub(crate) fn is_blank(doc: &JsonValue) -> (b: bool)
    ensures
        b == blank(*doc),
{
    doc.is_empty()
}

/// Calls `JsonValue::is_null`.
#[verifier::external_body]
pub(crate) fn is_null(doc: &JsonValue) -> (b: bool)
    ensures
        b == null(*doc),
{
    doc.is_null()
}

/// Calls `JsonValue::as_number`.
#[verifier::external_body]
pub(crate) fn as_number(doc: &JsonValue) -> (number: Option<Number>)
    ensures
        number == number_in(*doc),
{
    doc.as_number()
}

/// Calls `Number::as_parts` and hands out the second part, the mantissa.
#[verifier::external_body]
pub(crate) fn mantissa_part_of(number: &Number) -> (m: u64)
    ensures
        m == mantissa_part(*number),
{
    number.as_parts().1
}

/// The mantissa of a number document; nothing for a document that is no
/// number.
pub(crate) fn mantissa(doc: &JsonValue) -> (m: Option<u64>)
    ensures
        m == mantissa_of(*doc),
{
    match as_number(doc) {
        Some(number) => Some(mantissa_part_of(&number)),
        None => None,
    }
}

/// Formats the document with its `Display`.
#[verifier::external_body]
pub(crate) fn show(doc: &JsonValue) -> (text: String)
    ensures
        text@ == shown(*doc),
{
    format!("{}", doc)
}

/// Calls `JsonValue::new_object`, which makes an object without keys: an
/// empty document.
#[verifier::external_body]
pub(crate) fn new_object() -> (doc: JsonValue)
    ensures
        keys_of(doc) == Seq::<Seq<char>>::empty(),
        blank(doc),
{
    JsonValue::new_object()
}

/// Assigns `value` to the document indexed by `key`. A key that is there
/// keeps its place and gets the value; a new key goes to the end. The
/// other keys keep their values. A document that is no object becomes one
/// that holds this key only. An object that holds a key is not empty.
#[verifier::external_body]
pub(crate) fn set_member(doc: &mut JsonValue, key: &str, value: JsonValue)
    ensures
        !blank(*final(doc)),
        keys_of(*final(doc)) == if keys_of(*old(doc)).contains(key@) {
            keys_of(*old(doc))
        } else {
            keys_of(*old(doc)).push(key@)
        },
        member_of(*final(doc), key@) == value,
        forall|k: Seq<char>|
            k != key@ && keys_of(*old(doc)).contains(k) ==> member_of(*final(doc), k) == member_of(
                *old(doc),
                k,
            ),
{
    doc[key] = value;
}

/// Converts a text into a string document with `JsonValue::from`. Its
/// `as_str` and its `Display` both give the text back.
#[verifier::external_body]
pub(crate) fn text_value(text: &str) -> (doc: JsonValue)
    ensures
        text_of(doc) == Some(text@),
        shown(doc) == text@,
{
    JsonValue::from(text)
}

/// Converts a list of documents into an array with `JsonValue::from`. The
/// array holds them in order, and is no string.
#[verifier::external_body]
pub(crate) fn list_value(items: Vec<JsonValue>) -> (doc: JsonValue)
    ensures
        items_of(doc) == items@,
        text_of(doc) is None,
{
    JsonValue::from(items)
}

} // verus!
