//! One community's dictionary: keys, each with one entry, in the order in
//! which they were added.

use crate::distance::{lemma_lev_zero_iff_equal, lev, levenshtein};
use crate::matcher::{
    candidate_texts, closest_index, closest_spec, first_nearest_at, lemma_closest_index_first_least,
    lemma_closest_index_unique, lemma_closest_meaning, nearest, Candidate, MatchView,
};
use crate::text::same_text;
use vstd::prelude::*;
use vstd::string::StringExecFns;

verus! {

/// The greatest distance at which a key still answers a request.
pub const DISTANCE_SENSITIVITY: usize = 4;

/// What a dictionary holds under a key: a text, and optionally a reference
/// to an attachment, such as the address of an image.
#[derive(Debug, Clone, PartialEq, Eq)]
pub struct DictionaryEntry {
    pub body: String,
    pub attachment: Option<String>,
}

/// What a `DictionaryEntry` holds, as mathematical values.
pub ghost struct EntryView {
    pub body: Seq<char>,
    pub attachment: Option<Seq<char>>,
}

impl View for DictionaryEntry {
    type V = EntryView;

    open spec fn view(&self) -> EntryView {
        EntryView {
            body: self.body@,
            attachment: match self.attachment {
                Some(a) => Some(a@),
                None => None,
            },
        }
    }
}

impl DictionaryEntry {
    /// A copy of the entry.
    pub fn duplicate(&self) -> (copy: DictionaryEntry)
        ensures
            copy@ == self@,
    {
        let attachment = match &self.attachment {
            Some(a) => Some(a.clone()),
            None => None,
        };
        DictionaryEntry { body: self.body.clone(), attachment }
    }
}

/// Why a change to a dictionary was refused.
#[derive(Debug, Clone, Copy, PartialEq, Eq)]
pub enum StoreError {
    /// The key to insert is already there.
    KeyAlreadyExists,
    /// The key to change or delete is not there.
    KeyNotFound,
}

/// The answer to a request for an entry.
#[derive(Debug, Clone, PartialEq, Eq)]
pub enum LookupResult {
    /// The entry under the requested key.
    ExactEntry(DictionaryEntry),
    /// The nearest key, its entry and its distance from the request.
    FuzzyEntry(String, DictionaryEntry, usize),
    /// The dictionary holds nothing at all.
    Empty,
    /// The dictionary holds entries, but no key is near enough.
    NotFound,
}

/// What a `LookupResult` holds, as mathematical values.
pub ghost enum LookupView {
    ExactEntry(EntryView),
    FuzzyEntry(Seq<char>, EntryView, nat),
    Empty,
    NotFound,
}

impl View for LookupResult {
    type V = LookupView;

    open spec fn view(&self) -> LookupView {
        match self {
            LookupResult::ExactEntry(e) => LookupView::ExactEntry(e@),
            LookupResult::FuzzyEntry(k, e, d) => LookupView::FuzzyEntry(k@, e@, *d as nat),
            LookupResult::Empty => LookupView::Empty,
            LookupResult::NotFound => LookupView::NotFound,
        }
    }
}

/// A dictionary as a mathematical value: its keys with their entries, in
/// order.
pub type Entries = Seq<(Seq<char>, EntryView)>;

/// The keys of a dictionary, in order.
pub open spec fn keys_of_entries(d: Entries) -> Seq<Seq<char>> {
    Seq::new(d.len(), |i: int| d[i].0)
}

/// Whether no key occurs twice.
pub open spec fn unique_keys(d: Entries) -> bool {
    forall|i: int, j: int| 0 <= i < j < d.len() ==> d[i].0 != d[j].0
}

/// Whether the dictionary holds `key`.
pub open spec fn has_key(d: Entries, key: Seq<char>) -> bool {
    exists|i: int| 0 <= i < d.len() && (#[trigger] d[i]).0 == key
}

/// The place of `key` in a dictionary that holds it.
pub open spec fn place_of(d: Entries, key: Seq<char>) -> int {
    choose|i: int| 0 <= i < d.len() && (#[trigger] d[i]).0 == key
}

/// The dictionary after an attempt to insert `entry` under `key`: the pair
/// is added at the end unless the key is there already.
pub open spec fn inserted(d: Entries, key: Seq<char>, entry: EntryView) -> Entries {
    if has_key(d, key) {
        d
    } else {
        d.push((key, entry))
    }
}

/// The dictionary after an attempt to replace the entry under `key`: the
/// key keeps its place and gets the entry, if it is there.
pub open spec fn upserted(d: Entries, key: Seq<char>, entry: EntryView) -> Entries {
    if has_key(d, key) {
        d.update(place_of(d, key), (key, entry))
    } else {
        d
    }
}

/// The dictionary after an attempt to delete `key`: the others stay, in
/// their order.
pub open spec fn deleted(d: Entries, key: Seq<char>) -> Entries {
    if has_key(d, key) {
        d.remove(place_of(d, key))
    } else {
        d
    }
}

/// What an entry, or its absence, holds as a mathematical value.
pub open spec fn optional_entry_view(entry: Option<DictionaryEntry>) -> Option<EntryView> {
    match entry {
        Some(e) => Some(e@),
        None => None,
    }
}

/// What a list of optional entries holds, as mathematical values.
pub open spec fn entries_view(entries: Seq<Option<DictionaryEntry>>) -> Seq<Option<EntryView>> {
    Seq::new(entries.len(), |i: int| optional_entry_view(entries[i]))
}

/// The dictionary made of a list of keys and a list of entries, pair by
/// pair; nothing if the lists differ in length, a key occurs twice or an
/// entry is missing.
pub open spec fn assembled(keys: Seq<Seq<char>>, entries: Seq<Option<EntryView>>) -> Option<
    Entries,
> {
    if keys.len() == entries.len() && keys.no_duplicates() && forall|i: int|
        0 <= i < entries.len() ==> (#[trigger] entries[i]) is Some {
        Some(Seq::new(keys.len(), |i: int| (keys[i], entries[i]->0)))
    } else {
        None
    }
}

/// The keys among the first `n` that are within `threshold` of a request,
/// in order.
pub open spec fn near_keys(d: Entries, request: Seq<char>, threshold: nat, n: int) -> Seq<
    Seq<char>,
>
    decreases n,
{
    if n <= 0 {
        Seq::empty()
    } else if lev(d[n - 1].0, request) <= threshold {
        near_keys(d, request, threshold, n - 1).push(d[n - 1].0)
    } else {
        near_keys(d, request, threshold, n - 1)
    }
}

/// The answer to an attempt to insert under `key`.
pub open spec fn insert_outcome(d: Entries, key: Seq<char>) -> Result<(), StoreError> {
    if has_key(d, key) {
        Err(StoreError::KeyAlreadyExists)
    } else {
        Ok(())
    }
}

/// The answer to an attempt to replace or delete what is under `key`.
pub open spec fn change_outcome(d: Entries, key: Seq<char>) -> Result<(), StoreError> {
    if has_key(d, key) {
        Ok(())
    } else {
        Err(StoreError::KeyNotFound)
    }
}

/// The answer that a dictionary owes to a request: `Empty` if it holds
/// nothing; else the entry of the first nearest key, exact at distance
/// zero, fuzzy up to the threshold, and `NotFound` beyond it.
pub open spec fn lookup_spec(d: Entries, request: Seq<char>, threshold: nat) -> LookupView {
    if d.len() == 0 {
        LookupView::Empty
    } else {
        let keys = keys_of_entries(d);
        let i = closest_index(keys, request);
        match closest_spec(keys, keys, request, threshold) {
            MatchView::ExactMatch(_) => LookupView::ExactEntry(d[i].1),
            MatchView::FuzzyMatch(key, distance) => LookupView::FuzzyEntry(key, d[i].1, distance),
            MatchView::NoMatch => LookupView::NotFound,
        }
    }
}

/// A key with its entry.
struct Record {
    key: String,
    entry: DictionaryEntry,
}

/// The dictionary of one community. No key occurs twice.
///
/// Keys are filed and compared as they are given: trimming and lowering
/// them is the business of whoever takes them from a user.
pub struct Dictionary {
    records: Vec<Record>,
}

impl View for Dictionary {
    type V = Entries;

    closed spec fn view(&self) -> Entries {
        Seq::new(self.records@.len(), |i: int| (self.records@[i].key@, self.records@[i].entry@))
    }
}

impl Dictionary {
    #[verifier::type_invariant]
    spec fn well_formed(self) -> bool {
        unique_keys(self@)
    }

    /// A dictionary without entries.
    pub fn new() -> (d: Dictionary)
        ensures
            d@ == Entries::empty(),
    {
        let d = Dictionary { records: Vec::new() };
        assert(d@ =~= Entries::empty());
        d
    }

    /// The dictionary made of `keys` and `entries`, pair by pair; nothing if
    /// the lists differ in length, a key occurs twice or an entry is
    /// missing.
    pub fn from_parts(keys: &Vec<String>, entries: &Vec<Option<DictionaryEntry>>) -> (r: Option<
        Dictionary,
    >)
        ensures
            match r {
                Some(d) => assembled(keys.deep_view(), entries_view(entries@)) == Some(d@),
                None => assembled(keys.deep_view(), entries_view(entries@)) is None,
            },
    {
        if keys.len() != entries.len() {
            return None;
        }
        let ghost ks = keys.deep_view();
        let ghost es = entries_view(entries@);
        let mut d = Dictionary::new();
        let mut i: usize = 0;
        while i < keys.len()
            invariant
                i <= keys@.len(),
                keys@.len() == entries@.len(),
                ks == keys.deep_view(),
                es == entries_view(entries@),
                d@.len() == i,
                forall|j: int| 0 <= j < i ==> (#[trigger] es[j]) is Some,
                forall|j: int| 0 <= j < i ==> (#[trigger] d@[j]) == (ks[j], es[j]->0),
            decreases keys@.len() - i,
        {
            let ghost before = d@;
            match &entries[i] {
                None => {
                    assert(es[i as int] is None);
                    return None;
                },
                Some(entry) => {
                    let added = d.insert(keys[i].as_str(), entry.duplicate());
                    assert(ks[i as int] == keys@[i as int]@);
                    assert(es[i as int] == Some(entry@));
                    if added.is_err() {
                        proof {
                            let p = place_of(before, ks[i as int]);
                            assert(before[p].0 == ks[i as int]);
                            assert(ks[p] == ks[i as int]);
                        }
                        return None;
                    }
                },
            }
            i = i + 1;
        }
        proof {
            assert(d@ =~= Seq::new(ks.len(), |j: int| (ks[j], es[j]->0)));
            use_type_invariant(&d);
            assert forall|a: int, b: int| 0 <= a < ks.len() && 0 <= b < ks.len() && a != b implies ks[a]
                != ks[b] by {
                assert(d@[a].0 == ks[a] && d@[b].0 == ks[b]);
            }
        }
        Some(d)
    }

    /// The number of entries, of which no two share a key.
    pub fn len(&self) -> (n: usize)
        ensures
            n == self@.len(),
            unique_keys(self@),
    {
        proof {
            use_type_invariant(self);
        }
        self.records.len()
    }

    /// Whether the dictionary holds nothing.
    pub fn is_empty(&self) -> (b: bool)
        ensures
            b == (self@.len() == 0),
    {
        self.records.len() == 0
    }

    /// The place of `key`, if the dictionary holds it.
    fn find_key(&self, key: &str) -> (r: Option<usize>)
        ensures
            match r {
                Some(i) => has_key(self@, key@) && i == place_of(self@, key@) && i < self@.len(),
                None => !has_key(self@, key@),
            },
    {
        proof {
            use_type_invariant(self);
        }
        let mut i: usize = 0;
        while i < self.records.len()
            invariant
                i <= self.records@.len(),
                unique_keys(self@),
                forall|j: int| 0 <= j < i ==> (#[trigger] self@[j]).0 != key@,
            decreases self.records@.len() - i,
        {
            if same_text(self.records[i].key.as_str(), key) {
                proof {
                    assert(self@[i as int].0 == key@);
                    let p = place_of(self@, key@);
                    assert(self@[p].0 == key@);
                    assert(p == i);
                }
                return Some(i);
            }
            i = i + 1;
        }
        None
    }

    /// Whether the dictionary holds `key`.
    pub fn contains_key(&self, key: &str) -> (b: bool)
        ensures
            b == has_key(self@, key@),
    {
        self.find_key(key).is_some()
    }

    /// The key at place `i`.
    pub fn key_at(&self, i: usize) -> (key: &str)
        requires
            i < self@.len(),
        ensures
            key@ == self@[i as int].0,
    {
        self.records[i].key.as_str()
    }

    /// The entry at place `i`.
    pub fn entry_at(&self, i: usize) -> (entry: &DictionaryEntry)
        requires
            i < self@.len(),
        ensures
            entry@ == self@[i as int].1,
    {
        &self.records[i].entry
    }

    /// Inserts `entry` under `key`, unless the key is there: then nothing
    /// changes and the answer is `KeyAlreadyExists`.
    pub fn insert(&mut self, key: &str, entry: DictionaryEntry) -> (r: Result<(), StoreError>)
        ensures
            final(self)@ == inserted(old(self)@, key@, entry@),
            r == insert_outcome(old(self)@, key@),
    {
        proof {
            use_type_invariant(&*self);
        }
        match self.find_key(key) {
            Some(_) => Err(StoreError::KeyAlreadyExists),
            None => {
                let ghost before = self@;
                let mut records: Vec<Record> = Vec::new();
                core::mem::swap(&mut records, &mut self.records);
                records.push(Record { key: String::from_str(key), entry });
                assert(Dictionary { records }@ =~= before.push((key@, entry@)));
                self.records = records;
                Ok(())
            },
        }
    }

    /// Replaces the entry under `key`, which keeps its place. If the key is
    /// not there, nothing changes and the answer is `KeyNotFound`.
    pub fn upsert(&mut self, key: &str, entry: DictionaryEntry) -> (r: Result<(), StoreError>)
        ensures
            final(self)@ == upserted(old(self)@, key@, entry@),
            r == change_outcome(old(self)@, key@),
    {
        proof {
            use_type_invariant(&*self);
        }
        match self.find_key(key) {
            Some(i) => {
                let ghost before = self@;
                let mut records: Vec<Record> = Vec::new();
                core::mem::swap(&mut records, &mut self.records);
                records.set(i, Record { key: String::from_str(key), entry });
                assert(Dictionary { records }@ =~= before.update(i as int, (key@, entry@)));
                self.records = records;
                Ok(())
            },
            None => Err(StoreError::KeyNotFound),
        }
    }

    /// Deletes `key` and its entry; the other keys keep their order. If the
    /// key is not there, nothing changes and the answer is `KeyNotFound`.
    pub fn delete(&mut self, key: &str) -> (r: Result<(), StoreError>)
        ensures
            final(self)@ == deleted(old(self)@, key@),
            r == change_outcome(old(self)@, key@),
    {
        proof {
            use_type_invariant(&*self);
        }
        match self.find_key(key) {
            Some(i) => {
                let ghost before = self@;
                let mut records: Vec<Record> = Vec::new();
                core::mem::swap(&mut records, &mut self.records);
                let _ = records.remove(i);
                assert(Dictionary { records }@ =~= before.remove(i as int));
                self.records = records;
                Ok(())
            },
            None => Err(StoreError::KeyNotFound),
        }
    }

    /// Deletes every entry.
    pub fn delete_all(&mut self)
        ensures
            final(self)@ == Entries::empty(),
    {
        self.records = Vec::new();
        assert(self@ =~= Entries::empty());
    }

    /// The keys, in order.
    pub fn keys(&self) -> (keys: Vec<String>)
        ensures
            keys.deep_view() == keys_of_entries(self@),
    {
        let mut keys: Vec<String> = Vec::new();
        let mut i: usize = 0;
        while i < self.records.len()
            invariant
                i <= self.records@.len(),
                keys@.len() == i,
                forall|j: int| 0 <= j < i ==> (#[trigger] keys@[j])@ == self@[j].0,
            decreases self.records@.len() - i,
        {
            keys.push(self.records[i].key.clone());
            i = i + 1;
        }
        assert(keys.deep_view() =~= keys_of_entries(self@));
        keys
    }

    /// The keys within `threshold` of a request, in order: what a request
    /// that found nothing may have meant.
    pub fn suggestions(&self, request: &str, threshold: usize) -> (keys: Vec<String>)
        ensures
            keys.deep_view() == near_keys(self@, request@, threshold as nat, self@.len() as int),
    {
        let mut keys: Vec<String> = Vec::new();
        let mut i: usize = 0;
        assert(keys.deep_view() =~= near_keys(self@, request@, threshold as nat, 0));
        while i < self.records.len()
            invariant
                i <= self.records@.len(),
                keys.deep_view() == near_keys(self@, request@, threshold as nat, i as int),
            decreases self.records@.len() - i,
        {
            let ghost before = keys.deep_view();
            if levenshtein(self.records[i].key.as_str(), request) <= threshold {
                keys.push(self.records[i].key.clone());
                assert(keys.deep_view() =~= before.push(self@[i as int].0));
            }
            i = i + 1;
        }
        keys
    }

    /// Answers a request with the entry of the nearest key within the
    /// fixed sensitivity.
    pub fn get(&self, request: &str) -> (r: LookupResult)
        ensures
            r@ == lookup_spec(self@, request@, DISTANCE_SENSITIVITY as nat),
    {
        self.lookup(request, DISTANCE_SENSITIVITY)
    }

    /// Answers a request with the entry of the nearest key.
    ///
    /// The request is measured against each key as it stands. `Empty` says
    /// that the dictionary holds nothing, `NotFound` that it holds entries
    /// but none within `threshold`. Among equally near keys the one added
    /// first wins.
    pub fn lookup(&self, request: &str, threshold: usize) -> (r: LookupResult)
        ensures
            r@ == lookup_spec(self@, request@, threshold as nat),
    {
        if self.records.len() == 0 {
            return LookupResult::Empty;
        }
        let mut candidates: Vec<Candidate> = Vec::new();
        let mut i: usize = 0;
        while i < self.records.len()
            invariant
                i <= self.records@.len(),
                candidates@.len() == i,
                forall|j: int|
                    0 <= j < i ==> (#[trigger] candidates@[j]).key@ == self@[j].0
                        && candidates@[j].text@ == self@[j].0,
            decreases self.records@.len() - i,
        {
            candidates.push(
                Candidate { key: self.records[i].key.clone(), text: self.records[i].key.clone() },
            );
            i = i + 1;
        }
        proof {
            assert(candidate_texts(candidates@) =~= keys_of_entries(self@));
        }
        match nearest(&candidates, request) {
            None => LookupResult::NotFound,
            Some((at, distance)) => {
                if distance == 0 {
                    LookupResult::ExactEntry(self.records[at].entry.duplicate())
                } else if distance > threshold {
                    LookupResult::NotFound
                } else {
                    LookupResult::FuzzyEntry(
                        self.records[at].key.clone(),
                        self.records[at].entry.duplicate(),
                        distance,
                    )
                }
            },
        }
    }
}

/// Inserting, replacing and deleting keep the keys unique.
pub proof fn lemma_changes_keep_keys_unique(d: Entries, key: Seq<char>, entry: EntryView)
    requires
        unique_keys(d),
    ensures
        unique_keys(inserted(d, key, entry)),
        unique_keys(upserted(d, key, entry)),
        unique_keys(deleted(d, key)),
{
    if has_key(d, key) {
        let p = place_of(d, key);
        let u = d.update(p, (key, entry));
        assert forall|i: int, j: int| 0 <= i < j < u.len() implies u[i].0 != u[j].0 by {
            assert(d[i].0 != d[j].0);
        }
        let r = d.remove(p);
        assert forall|i: int, j: int| 0 <= i < j < r.len() implies r[i].0 != r[j].0 by {
            let oi = if i < p {
                i
            } else {
                i + 1
            };
            let oj = if j < p {
                j
            } else {
                j + 1
            };
            assert(r[i] == d[oi] && r[j] == d[oj]);
            assert(d[oi].0 != d[oj].0);
        }
    } else {
        let a = d.push((key, entry));
        assert forall|i: int, j: int| 0 <= i < j < a.len() implies a[i].0 != a[j].0 by {
            if j < d.len() {
                assert(d[i].0 != d[j].0);
            } else {
                assert(a[i] == d[i]);
            }
        }
    }
}

/// What each answer of `lookup_spec` means. `Empty` says that the
/// dictionary holds nothing. An exact entry is the entry under the
/// requested key. A fuzzy entry is the key and entry at the first nearest
/// place, at a distance that is positive and within the threshold.
/// `NotFound` says that the dictionary holds keys, none of them within the
/// threshold.
pub proof fn lemma_lookup_meaning(d: Entries, request: Seq<char>, threshold: nat)
    ensures
        match lookup_spec(d, request, threshold) {
            LookupView::Empty => d.len() == 0,
            LookupView::ExactEntry(entry) => exists|i: int|
                0 <= i < d.len() && #[trigger] d[i] == (request, entry),
            LookupView::FuzzyEntry(key, entry, distance) => 0 < distance <= threshold && exists|
                i: int,
            |
                #[trigger] first_nearest_at(keys_of_entries(d), request, i, distance) && d[i] == (
                    key,
                    entry,
                ),
            LookupView::NotFound => d.len() > 0 && forall|j: int|
                0 <= j < d.len() ==> threshold < lev((#[trigger] d[j]).0, request),
        },
{
    if d.len() > 0 {
        let keys = keys_of_entries(d);
        lemma_closest_meaning(keys, keys, request, threshold);
        let at = closest_index(keys, request);
        lemma_closest_index_first_least(keys, request);
        lemma_lev_zero_iff_equal(keys[at], request);
        assert(first_nearest_at(keys, request, at, lev(keys[at], request)));
        assert(d[at] == (keys[at], d[at].1));
        match lookup_spec(d, request, threshold) {
            LookupView::NotFound => {
                assert forall|j: int| 0 <= j < d.len() implies threshold < lev(
                    (#[trigger] d[j]).0,
                    request,
                ) by {
                    assert(keys[j] == d[j].0);
                }
            },
            _ => {},
        }
    }
}

/// A request for a key that the dictionary holds is answered exactly, with
/// the entry under that key, whatever the threshold.
pub proof fn lemma_lookup_of_held_key(d: Entries, at: int, threshold: nat)
    requires
        unique_keys(d),
        0 <= at < d.len(),
    ensures
        lookup_spec(d, d[at].0, threshold) == LookupView::ExactEntry(d[at].1),
{
    let keys = keys_of_entries(d);
    let request = d[at].0;
    lemma_lev_zero_iff_equal(keys[at], request);
    assert forall|j: int| 0 <= j < at implies lev(keys[at], request) < lev(
        #[trigger] keys[j],
        request,
    ) by {
        lemma_lev_zero_iff_equal(keys[j], request);
        assert(d[j].0 != d[at].0);
    }
    lemma_closest_index_unique(keys, request, at);
}

/// A key that was just inserted is found exactly, with the entry that was
/// inserted under it.
pub proof fn lemma_insert_then_lookup(
    d: Entries,
    key: Seq<char>,
    entry: EntryView,
    threshold: nat,
)
    requires
        unique_keys(d),
        insert_outcome(d, key) is Ok,
    ensures
        lookup_spec(inserted(d, key, entry), key, threshold) == LookupView::ExactEntry(entry),
{
    lemma_changes_keep_keys_unique(d, key, entry);
    lemma_lookup_of_held_key(inserted(d, key, entry), d.len() as int, threshold);
}

/// A key whose entry was just replaced is found exactly, with the new
/// entry.
pub proof fn lemma_upsert_then_lookup(
    d: Entries,
    key: Seq<char>,
    entry: EntryView,
    threshold: nat,
)
    requires
        unique_keys(d),
        change_outcome(d, key) is Ok,
    ensures
        lookup_spec(upserted(d, key, entry), key, threshold) == LookupView::ExactEntry(entry),
{
    lemma_changes_keep_keys_unique(d, key, entry);
    lemma_lookup_of_held_key(upserted(d, key, entry), place_of(d, key), threshold);
}

/// Whatever the first attempt to insert under a key met, a second attempt
/// under the same key is refused: the key is there.
pub proof fn lemma_second_insert_refused(
    d: Entries,
    key: Seq<char>,
    first: EntryView,
    second: EntryView,
)
    ensures
        insert_outcome(inserted(d, key, first), key) == Err::<(), StoreError>(
            StoreError::KeyAlreadyExists,
        ),
        inserted(inserted(d, key, first), key, second) == inserted(d, key, first),
{
    if !has_key(d, key) {
        let a = d.push((key, first));
        assert(a[d.len() as int].0 == key);
    }
}

/// Replacing or deleting what is under a key that is not there is refused
/// and changes nothing.
pub proof fn lemma_change_of_absent_key_refused(d: Entries, key: Seq<char>, entry: EntryView)
    requires
        !has_key(d, key),
    ensures
        change_outcome(d, key) == Err::<(), StoreError>(StoreError::KeyNotFound),
        upserted(d, key, entry) == d,
        deleted(d, key) == d,
{
}

/// A key that was just deleted is there no more.
pub proof fn lemma_deleted_key_is_gone(d: Entries, key: Seq<char>)
    requires
        unique_keys(d),
    ensures
        !has_key(deleted(d, key), key),
{
    if has_key(d, key) {
        let p = place_of(d, key);
        let r = d.remove(p);
        assert forall|i: int| 0 <= i < r.len() implies (#[trigger] r[i]).0 != key by {
            if i < p {
                assert(r[i] == d[i]);
                assert(d[i].0 != d[p].0);
            } else {
                assert(r[i] == d[i + 1]);
                assert(d[p].0 != d[i + 1].0);
            }
        }
    }
}

/// Once everything is deleted, every request is answered with `Empty`.
pub proof fn lemma_lookup_in_empty(request: Seq<char>, threshold: nat)
    ensures
        lookup_spec(Entries::empty(), request, threshold) == LookupView::Empty,
{
}

} // verus!
