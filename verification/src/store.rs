//! The dictionaries as they are kept: one JSON text per community and
//! purpose, read in full before each request and written in full after each
//! change.
//!
//! Nothing here touches a file. A request is answered from the text that
//! was read, or from `None` where there was no file; a change hands back the
//! text to write.

use crate::decimal::{decimal, digits};
use crate::dictionary::{
    assembled, change_outcome, deleted, entries_view, insert_outcome, inserted, keys_of_entries,
    lookup_spec, optional_entry_view, unique_keys, upserted, Dictionary, DictionaryEntry, Entries,
    EntryView, LookupResult, StoreError, DISTANCE_SENSITIVITY,
};
use crate::document::{
    dump, dumped, items, items_of, keys, keys_of, list_value, member, member_of, new_object, read,
    read_as, set_member, text, text_of, text_value,
};
use crate::text::{chars_of, normal_key, normalize, string_of, trim, trimmed};
use json::JsonValue;
use vstd::prelude::*;
use vstd::string::StringExecFns;

verus! {

/// What a dictionary is kept for. The purpose names the file and decides
/// how an entry without attachment is written.
#[derive(Debug, Clone, Copy, PartialEq, Eq, Structural)]
pub enum Purpose {
    /// Frequently asked questions: an entry is written as a list of one or
    /// two texts.
    Faqs,
    /// Named ratios: an entry without attachment is written as one text.
    Ratios,
}

/// The tag by which a file name tells the purpose.
pub open spec fn purpose_tag(purpose: Purpose) -> Seq<char> {
    match purpose {
        Purpose::Faqs => "-faqs.json"@,
        Purpose::Ratios => "-ratios.json"@,
    }
}

/// The name of the file that keeps a community's dictionary: the
/// community's number in decimal, then the tag of the purpose.
pub fn file_name(partition: u64, purpose: Purpose) -> (name: String)
    ensures
        name@ == digits(partition as nat) + purpose_tag(purpose),
{
    let mut name = decimal(partition);
    match purpose {
        Purpose::Faqs => name.append("-faqs.json"),
        Purpose::Ratios => name.append("-ratios.json"),
    }
    name
}

/// What a text, or its absence, holds as a mathematical value.
pub open spec fn text_view(text: Option<String>) -> Option<Seq<char>> {
    match text {
        Some(t) => Some(t@),
        None => None,
    }
}

/// What a list of optional texts holds, as mathematical values.
pub open spec fn texts_view(texts: Seq<Option<String>>) -> Seq<Option<Seq<char>>> {
    Seq::new(texts.len(), |i: int| text_view(texts[i]))
}

/// The entry that a written value stands for, given the value's own text
/// and the texts of its members: a text alone is the body; a list of one
/// text is the body; a list of two texts is the body and the attachment.
/// Any other shape stands for nothing.
pub open spec fn entry_from(own: Option<Seq<char>>, members: Seq<Option<Seq<char>>>) -> Option<
    EntryView,
> {
    match own {
        Some(body) => Some(EntryView { body, attachment: None }),
        None => {
            if members.len() == 1 && members[0] is Some {
                Some(EntryView { body: members[0]->0, attachment: None })
            } else if members.len() == 2 && members[0] is Some && members[1] is Some {
                Some(EntryView { body: members[0]->0, attachment: Some(members[1]->0) })
            } else {
                None
            }
        },
    }
}

/// The entry that a written value stands for, given the value's own text
/// and the texts of its members.
pub fn entry_from_texts(own: Option<String>, members: Vec<Option<String>>) -> (r: Option<
    DictionaryEntry,
>)
    ensures
        match r {
            Some(e) => entry_from(text_view(own), texts_view(members@)) == Some(e@),
            None => entry_from(text_view(own), texts_view(members@)) is None,
        },
{
    let mut members = members;
    let ghost given = texts_view(members@);
    match own {
        Some(body) => Some(DictionaryEntry { body, attachment: None }),
        None => {
            if members.len() == 1 {
                let first = members.pop().unwrap();
                assert(given[0] == text_view(first));
                match first {
                    Some(body) => Some(DictionaryEntry { body, attachment: None }),
                    None => None,
                }
            } else if members.len() == 2 {
                let second = members.pop().unwrap();
                let first = members.pop().unwrap();
                assert(given[0] == text_view(first));
                assert(given[1] == text_view(second));
                match (first, second) {
                    (Some(body), Some(attachment)) => Some(
                        DictionaryEntry { body, attachment: Some(attachment) },
                    ),
                    _ => None,
                }
            } else {
                None
            }
        },
    }
}

/// The texts of the members of a document.
pub open spec fn member_texts(doc: JsonValue) -> Seq<Option<Seq<char>>> {
    Seq::new(items_of(doc).len(), |i: int| text_of(items_of(doc)[i]))
}

/// The entry that a document stands for, if it has the shape of one.
pub open spec fn entry_of(doc: JsonValue) -> Option<EntryView> {
    entry_from(text_of(doc), member_texts(doc))
}

/// The entries that a document holds under its keys, in the order of the
/// keys.
pub open spec fn member_entries(doc: JsonValue) -> Seq<Option<EntryView>> {
    Seq::new(keys_of(doc).len(), |i: int| entry_of(member_of(doc, keys_of(doc)[i])))
}

/// The dictionary that a document stands for: its keys, each with the entry
/// under it; nothing if what stands under one of the keys has not the shape
/// of an entry. A document that is no object stands for the empty
/// dictionary.
pub open spec fn document_entries(doc: JsonValue) -> Option<Entries> {
    assembled(keys_of(doc), member_entries(doc))
}

/// Whether a document holds a dictionary: the same keys in the same order,
/// and under each key a value that stands for the key's entry.
pub open spec fn holds(doc: JsonValue, d: Entries) -> bool {
    &&& keys_of(doc) == keys_of_entries(d)
    &&& forall|i: int| 0 <= i < d.len() ==> entry_of(member_of(doc, (#[trigger] d[i]).0)) == Some(d[i].1)
}

/// Whether a document is what an entry is written as for a purpose: for a
/// ratio without attachment the body as one text; else a list of the body
/// and, if there is one, the attachment.
pub open spec fn written_as(doc: JsonValue, entry: EntryView, purpose: Purpose) -> bool {
    if purpose == Purpose::Ratios && entry.attachment is None {
        text_of(doc) == Some(entry.body)
    } else {
        &&& text_of(doc) is None
        &&& member_texts(doc) == match entry.attachment {
            Some(attachment) => seq![Some(entry.body), Some(attachment)],
            None => seq![Some(entry.body)],
        }
    }
}

/// Whether a document holds a dictionary as it is written for a purpose:
/// the same keys in the same order, and under each key what the key's entry
/// is written as.
pub open spec fn holds_written(doc: JsonValue, d: Entries, purpose: Purpose) -> bool {
    &&& keys_of(doc) == keys_of_entries(d)
    &&& forall|i: int|
        0 <= i < d.len() ==> written_as(member_of(doc, (#[trigger] d[i]).0), d[i].1, purpose)
}

/// What an entry is written as stands for the entry.
pub proof fn lemma_written_stands_for(doc: JsonValue, entry: EntryView, purpose: Purpose)
    requires
        written_as(doc, entry, purpose),
    ensures
        entry_of(doc) == Some(entry),
{
}

/// A document that holds a dictionary as it is written holds it.
pub proof fn lemma_holds_written(doc: JsonValue, d: Entries, purpose: Purpose)
    requires
        holds_written(doc, d, purpose),
    ensures
        holds(doc, d),
{
    assert forall|i: int| 0 <= i < d.len() implies entry_of(member_of(doc, (#[trigger] d[i]).0))
        == Some(d[i].1) by {
        lemma_written_stands_for(member_of(doc, d[i].0), d[i].1, purpose);
    }
}

/// A document that holds a dictionary stands for that dictionary: building
/// the document and reading it again yields the same keys with the same
/// entries.
pub proof fn lemma_document_round_trip(doc: JsonValue, d: Entries)
    requires
        unique_keys(d),
        holds(doc, d),
    ensures
        document_entries(doc) == Some(d),
{
    let ks = keys_of(doc);
    let es = member_entries(doc);
    assert forall|i: int, j: int| 0 <= i < ks.len() && 0 <= j < ks.len() && i != j implies ks[i]
        != ks[j] by {
        assert(ks[i] == d[i].0 && ks[j] == d[j].0);
        if i < j {
            assert(d[i].0 != d[j].0);
        } else {
            assert(d[j].0 != d[i].0);
        }
    }
    assert forall|i: int| 0 <= i < es.len() implies (#[trigger] es[i]) == Some(d[i].1) by {
        assert(ks[i] == d[i].0);
    }
    assert(assembled(ks, es)->0 =~= d);
}

/// Reads the entry that a document stands for.
fn read_entry(doc: &JsonValue) -> (r: Option<DictionaryEntry>)
    ensures
        match r {
            Some(e) => entry_of(*doc) == Some(e@),
            None => entry_of(*doc) is None,
        },
{
    let own = text(doc);
    let members = items(doc);
    let mut texts: Vec<Option<String>> = Vec::new();
    let mut i: usize = 0;
    while i < members.len()
        invariant
            i <= members@.len(),
            members@.len() == items_of(*doc).len(),
            forall|j: int| 0 <= j < members@.len() ==> *members@[j] == items_of(*doc)[j],
            texts@.len() == i,
            forall|j: int| 0 <= j < i ==> text_view(#[trigger] texts@[j]) == text_of(items_of(*doc)[j]),
        decreases members@.len() - i,
    {
        let t = text(members[i]);
        texts.push(t);
        i = i + 1;
    }
    assert(texts_view(texts@) =~= member_texts(*doc));
    entry_from_texts(own, texts)
}

/// Reads the dictionary that a document stands for.
pub fn from_document(doc: &JsonValue) -> (r: Option<Dictionary>)
    ensures
        match r {
            Some(d) => document_entries(*doc) == Some(d@),
            None => document_entries(*doc) is None,
        },
{
    let ks = keys(doc);
    let mut entries: Vec<Option<DictionaryEntry>> = Vec::new();
    let mut i: usize = 0;
    while i < ks.len()
        invariant
            i <= ks@.len(),
            ks.deep_view() == keys_of(*doc),
            entries@.len() == i,
            forall|j: int|
                0 <= j < i ==> optional_entry_view(#[trigger] entries@[j]) == member_entries(
                    *doc,
                )[j],
        decreases ks@.len() - i,
    {
        assert(ks.deep_view()[i as int] == ks@[i as int]@);
        let e = read_entry(member(doc, ks[i].as_str()));
        entries.push(e);
        i = i + 1;
    }
    assert(entries_view(entries@) =~= member_entries(*doc));
    Dictionary::from_parts(&ks, &entries)
}

/// The document that an entry is written as: a list of the body and, if
/// there is one, the attachment; for a ratio without attachment, the body
/// alone.
fn entry_document(entry: &DictionaryEntry, purpose: Purpose) -> (doc: JsonValue)
    ensures
        written_as(doc, entry@, purpose),
{
    match &entry.attachment {
        None => {
            if purpose == Purpose::Ratios {
                text_value(entry.body.as_str())
            } else {
                let mut members: Vec<JsonValue> = Vec::new();
                members.push(text_value(entry.body.as_str()));
                let doc = list_value(members);
                assert(member_texts(doc) =~= seq![Some(entry.body@)]);
                doc
            }
        },
        Some(attachment) => {
            let mut members: Vec<JsonValue> = Vec::new();
            members.push(text_value(entry.body.as_str()));
            members.push(text_value(attachment.as_str()));
            let doc = list_value(members);
            assert(member_texts(doc) =~= seq![Some(entry.body@), Some(attachment@)]);
            doc
        },
    }
}

/// Builds the document that holds a dictionary, as it is written for a
/// purpose. Read again, the document gives the same dictionary.
pub fn to_document(d: &Dictionary, purpose: Purpose) -> (doc: JsonValue)
    ensures
        holds_written(doc, d@, purpose),
        document_entries(doc) == Some(d@),
{
    let mut doc = new_object();
    let n = d.len();
    let mut i: usize = 0;
    assert(keys_of(doc) =~= keys_of_entries(d@.take(0)));
    while i < n
        invariant
            i <= n,
            n == d@.len(),
            unique_keys(d@),
            holds_written(doc, d@.take(i as int), purpose),
        decreases n - i,
    {
        let ghost before = doc;
        let ghost done = d@.take(i as int);
        let ghost next = d@.take(i + 1);
        let key = d.key_at(i);
        let value = entry_document(d.entry_at(i), purpose);
        proof {
            assert(keys_of_entries(done) =~= keys_of_entries(d@).take(i as int));
            assert forall|j: int| 0 <= j < done.len() implies (#[trigger] done[j]).0 != key@ by {
                assert(d@[j].0 != d@[i as int].0);
            }
            if keys_of(before).contains(key@) {
                let j = choose|j: int| 0 <= j < keys_of(before).len() && keys_of(before)[j] == key@;
                assert(done[j].0 == key@);
            }
        }
        set_member(&mut doc, key, value);
        proof {
            assert(keys_of(doc) =~= keys_of_entries(next));
            assert forall|j: int| 0 <= j < next.len() implies written_as(
                member_of(doc, (#[trigger] next[j]).0),
                next[j].1,
                purpose,
            ) by {
                if j < i {
                    assert(next[j] == done[j]);
                    assert(keys_of(before)[j] == done[j].0);
                    assert(keys_of(before).contains(done[j].0));
                }
            }
        }
        i = i + 1;
    }
    proof {
        assert(d@.take(n as int) =~= d@);
        lemma_holds_written(doc, d@, purpose);
        lemma_document_round_trip(doc, d@);
    }
    doc
}

/// Whether `text` is what the JSON writer makes of a document that holds
/// the dictionary as it is written for a purpose.
pub open spec fn written(text: Seq<char>, d: Entries, purpose: Purpose) -> bool {
    exists|doc: JsonValue| holds_written(doc, d, purpose) && text == #[trigger] dumped(doc)
}

/// The text to write for a dictionary.
pub fn serialize(d: &Dictionary, purpose: Purpose) -> (text: String)
    ensures
        written(text@, d@, purpose),
{
    let doc = to_document(d, purpose);
    dump(&doc)
}

/// The dictionary that a text stands for: the text is trimmed and read as
/// a document, and the document read. Nothing if the text is not read as a
/// document, or if what stands under one of the keys has not the shape of
/// an entry.
pub open spec fn readable(text: Seq<char>) -> Option<Entries> {
    match read_as(trimmed(text)) {
        Some(doc) => document_entries(doc),
        None => None,
    }
}

/// Reads the dictionary that a text stands for.
pub fn deserialize(text: &str) -> (r: Option<Dictionary>)
    ensures
        match r {
            Some(d) => readable(text@) == Some(d@),
            None => readable(text@) is None,
        },
{
    let chars = chars_of(text);
    let inner = trim(chars.as_slice());
    let clean = string_of(inner.as_slice());
    match read(clean.as_str()) {
        Some(doc) => from_document(&doc),
        None => None,
    }
}

/// How a dictionary came to be loaded.
#[derive(Debug, Clone, Copy, PartialEq, Eq, Structural)]
pub enum LoadStatus {
    /// There was no file: the dictionary is empty, and the file is to be
    /// created with an empty dictionary in it.
    Absent,
    /// The file could not be read as a dictionary: the dictionary is empty,
    /// and the failure is to be logged.
    Unreadable,
    /// The file was read.
    Loaded,
}

/// What the text of a file, or its absence, holds as a mathematical value.
pub open spec fn stored_view(stored: Option<&str>) -> Option<Seq<char>> {
    match stored {
        Some(t) => Some(t@),
        None => None,
    }
}

/// The dictionary that a request works on, given the text of the file: the
/// dictionary that the text stands for, and the empty one where there is no
/// file or the text stands for none.
pub open spec fn loaded_entries(stored: Option<Seq<char>>) -> Entries {
    match stored {
        Some(text) => match readable(text) {
            Some(d) => d,
            None => Entries::empty(),
        },
        None => Entries::empty(),
    }
}

/// How the dictionary comes to be loaded, given the text of the file.
pub open spec fn load_status(stored: Option<Seq<char>>) -> LoadStatus {
    match stored {
        Some(text) => match readable(text) {
            Some(_) => LoadStatus::Loaded,
            None => LoadStatus::Unreadable,
        },
        None => LoadStatus::Absent,
    }
}

/// Loads a community's dictionary from the text of its file, or from `None`
/// where there is no file. No text makes this fail: what cannot be read
/// gives the empty dictionary, and the status says so.
pub fn load(stored: Option<&str>) -> (r: (Dictionary, LoadStatus))
    ensures
        r.0@ == loaded_entries(stored_view(stored)),
        r.1 == load_status(stored_view(stored)),
{
    match stored {
        None => (Dictionary::new(), LoadStatus::Absent),
        Some(text) => match deserialize(text) {
            Some(d) => (d, LoadStatus::Loaded),
            None => (Dictionary::new(), LoadStatus::Unreadable),
        },
    }
}

/// Answers a raw request from the dictionary that the file holds: the
/// request is trimmed and lowered, and resolved to the nearest key within
/// the fixed sensitivity.
pub fn resolve(stored: Option<&str>, raw_request: &str) -> (r: LookupResult)
    ensures
        r@ == lookup_spec(
            loaded_entries(stored_view(stored)),
            normal_key(raw_request@),
            DISTANCE_SENSITIVITY as nat,
        ),
{
    let (d, _) = load(stored);
    let request = normalize(raw_request);
    d.get(request.as_str())
}

/// What became of a change: the answer for the caller, and the text to
/// write to the file if the change was made.
#[derive(Debug, PartialEq, Eq)]
pub struct Change {
    pub result: Result<(), StoreError>,
    pub write: Option<String>,
}

/// Whether a change answers with `result` and writes a dictionary `after`,
/// as it is written for a purpose, exactly if the result is `Ok`.
pub open spec fn change_is(
    change: Change,
    result: Result<(), StoreError>,
    after: Entries,
    purpose: Purpose,
) -> bool {
    &&& change.result == result
    &&& match change.write {
        Some(text) => result is Ok && written(text@, after, purpose),
        None => result is Err,
    }
}

/// Hands back the answer and, if it is `Ok`, the text of the dictionary.
fn conclude(d: &Dictionary, purpose: Purpose, result: Result<(), StoreError>) -> (change: Change)
    ensures
        change_is(change, result, d@, purpose),
{
    match result {
        Ok(done) => Change { result: Ok(done), write: Some(serialize(d, purpose)) },
        Err(e) => Change { result: Err(e), write: None },
    }
}

/// Inserts `entry` under the key that `raw_key` stands for, trimmed and
/// lowered, into the dictionary that the file holds. Refused with
/// `KeyAlreadyExists` if the key is there; then nothing is written.
pub fn insert(stored: Option<&str>, purpose: Purpose, raw_key: &str, entry: DictionaryEntry) -> (change:
    Change)
    ensures
        change_is(
            change,
            insert_outcome(loaded_entries(stored_view(stored)), normal_key(raw_key@)),
            inserted(loaded_entries(stored_view(stored)), normal_key(raw_key@), entry@),
            purpose,
        ),
{
    let (mut d, _) = load(stored);
    let key = normalize(raw_key);
    let result = d.insert(key.as_str(), entry);
    conclude(&d, purpose, result)
}

/// Replaces the entry under the key that `raw_key` stands for, trimmed and
/// lowered, in the dictionary that the file holds. Refused with
/// `KeyNotFound` if the key is not there; then nothing is written.
pub fn upsert(stored: Option<&str>, purpose: Purpose, raw_key: &str, entry: DictionaryEntry) -> (change:
    Change)
    ensures
        change_is(
            change,
            change_outcome(loaded_entries(stored_view(stored)), normal_key(raw_key@)),
            upserted(loaded_entries(stored_view(stored)), normal_key(raw_key@), entry@),
            purpose,
        ),
{
    let (mut d, _) = load(stored);
    let key = normalize(raw_key);
    let result = d.upsert(key.as_str(), entry);
    conclude(&d, purpose, result)
}

/// Deletes the key that `raw_key` stands for, trimmed and lowered, from the
/// dictionary that the file holds. Refused with `KeyNotFound` if the key is
/// not there; then nothing is written.
pub fn delete(stored: Option<&str>, purpose: Purpose, raw_key: &str) -> (change: Change)
    ensures
        change_is(
            change,
            change_outcome(loaded_entries(stored_view(stored)), normal_key(raw_key@)),
            deleted(loaded_entries(stored_view(stored)), normal_key(raw_key@)),
            purpose,
        ),
{
    let (mut d, _) = load(stored);
    let key = normalize(raw_key);
    let result = d.delete(key.as_str());
    conclude(&d, purpose, result)
}

/// Resets a community's dictionary: whatever the file holds, the empty
/// dictionary is written.
pub fn delete_all(purpose: Purpose) -> (change: Change)
    ensures
        change_is(change, Ok::<(), StoreError>(()), Entries::empty(), purpose),
{
    let d = Dictionary::new();
    conclude(&d, purpose, Ok(()))
}

} // verus!
