//! The recipe catalog: loaded once, never changed, and asked like a
//! dictionary.

use crate::dictionary::DISTANCE_SENSITIVITY;
use crate::document::{
    blank, is_blank, keys, keys_of, member, member_of, read, read_as, show, shown,
};
use crate::matcher::{candidate_keys, candidate_texts, closest, closest_spec, Candidate, Match};
use crate::store::stored_view;
use crate::text::same_text;
use json::JsonValue;
use vstd::prelude::*;
use vstd::string::StringExecFns;

verus! {

/// One side of a recipe: the key of an item and how much of it, as the
/// catalog shows the amount.
#[derive(Debug, Clone, PartialEq, Eq)]
pub struct Ingredient {
    pub key: String,
    pub amount: String,
}

/// What an `Ingredient` holds, as mathematical values.
pub ghost struct IngredientView {
    pub key: Seq<char>,
    pub amount: Seq<char>,
}

impl View for Ingredient {
    type V = IngredientView;

    open spec fn view(&self) -> IngredientView {
        IngredientView { key: self.key@, amount: self.amount@ }
    }
}

/// What a list of ingredients holds, as mathematical values.
pub open spec fn ingredients_view(list: Seq<Ingredient>) -> Seq<IngredientView> {
    Seq::new(list.len(), |i: int| list[i]@)
}

/// A recipe of the catalog: the name to display, if the catalog has one;
/// the cost in time, as the catalog shows it; what goes in and what comes
/// out.
#[derive(Debug, Clone, PartialEq, Eq)]
pub struct CatalogRecord {
    pub display_name: Option<String>,
    pub cost: String,
    pub inputs: Vec<Ingredient>,
    pub outputs: Vec<Ingredient>,
}

/// What a `CatalogRecord` holds, as mathematical values.
pub ghost struct RecordView {
    pub display_name: Option<Seq<char>>,
    pub cost: Seq<char>,
    pub inputs: Seq<IngredientView>,
    pub outputs: Seq<IngredientView>,
}

impl View for CatalogRecord {
    type V = RecordView;

    open spec fn view(&self) -> RecordView {
        RecordView {
            display_name: match self.display_name {
                Some(name) => Some(name@),
                None => None,
            },
            cost: self.cost@,
            inputs: ingredients_view(self.inputs@),
            outputs: ingredients_view(self.outputs@),
        }
    }
}

/// A catalog as a mathematical value: its keys with their records, in
/// order.
pub type Records = Seq<(Seq<char>, RecordView)>;

/// The keys of a catalog, in order.
pub open spec fn record_keys(records: Records) -> Seq<Seq<char>> {
    Seq::new(records.len(), |i: int| records[i].0)
}

/// The place of the first record at or after `from` that is filed under
/// `key`.
pub open spec fn first_under_from(records: Records, key: Seq<char>, from: int) -> Option<int>
    decreases records.len() - from,
{
    if from < 0 || from >= records.len() {
        None
    } else if records[from].0 == key {
        Some(from)
    } else {
        first_under_from(records, key, from + 1)
    }
}

/// The first record filed under `key`, if there is one.
pub open spec fn record_under(records: Records, key: Seq<char>) -> Option<RecordView> {
    match first_under_from(records, key, 0) {
        Some(i) => Some(records[i].1),
        None => None,
    }
}

/// The name to display for the item filed under `key`: its display name in
/// the catalog, and the key itself where the catalog has no record under
/// that key or the record has no display name.
pub open spec fn display_name_of(records: Records, key: Seq<char>) -> Seq<char> {
    match record_under(records, key) {
        Some(record) => match record.display_name {
            Some(name) => name,
            None => key,
        },
        None => key,
    }
}

/// One ingredient as it is listed: the name to display, ` x`, the amount.
pub open spec fn listed(records: Records, item: IngredientView) -> Seq<char> {
    display_name_of(records, item.key) + " x"@ + item.amount
}

/// The first `n` ingredients as they are listed, separated by a comma and
/// a space.
pub open spec fn listing(records: Records, items: Seq<IngredientView>, n: int) -> Seq<char>
    decreases n,
{
    if n <= 0 {
        Seq::empty()
    } else if n == 1 {
        listed(records, items[0])
    } else {
        listing(records, items, n - 1) + ", "@ + listed(records, items[n - 1])
    }
}

/// One side of a recipe as text: `None` for an empty side; else the
/// ingredients as they are listed, separated by a comma and a space.
pub open spec fn recipe_io(records: Records, items: Seq<IngredientView>) -> Seq<char> {
    if items.len() == 0 {
        "None"@
    } else {
        listing(records, items, items.len() as int)
    }
}

/// The ingredients that a document stands for: its keys, each with what
/// the value under it shows as.
pub open spec fn ingredients_of(doc: JsonValue) -> Seq<IngredientView> {
    Seq::new(
        keys_of(doc).len(),
        |i: int|
            IngredientView { key: keys_of(doc)[i], amount: shown(member_of(doc, keys_of(doc)[i])) },
    )
}

/// The display name that a shown value stands for: none where the value
/// shows as `null`.
pub open spec fn name_from(shown_name: Seq<char>) -> Option<Seq<char>> {
    if shown_name == "null"@ {
        None
    } else {
        Some(shown_name)
    }
}

/// The record that a document stands for.
pub open spec fn record_of(doc: JsonValue) -> RecordView {
    RecordView {
        display_name: name_from(shown(member_of(doc, "wiki-name"@))),
        cost: shown(member_of(doc, "energy-required"@)),
        inputs: ingredients_of(member_of(doc, "inputs"@)),
        outputs: ingredients_of(member_of(doc, "outputs"@)),
    }
}

/// The catalog that a document stands for: its keys, each with the record
/// under it.
pub open spec fn records_of(doc: JsonValue) -> Records {
    Seq::new(keys_of(doc).len(), |i: int| (keys_of(doc)[i], record_of(member_of(doc, keys_of(doc)[i]))))
}

/// The catalog that is loaded, given the text of the catalog file: what
/// the text stands for, and the empty catalog where there is no file or the
/// text is not read as a document.
pub open spec fn loaded_records(stored: Option<Seq<char>>) -> Records {
    match stored {
        Some(text) => match read_as(text) {
            Some(doc) => records_of(doc),
            None => Records::empty(),
        },
        None => Records::empty(),
    }
}

/// A key of the catalog with its record.
struct Filed {
    key: String,
    record: CatalogRecord,
}

/// The catalog of recipes. It is made once and only read afterwards.
pub struct StaticCatalog {
    filed: Vec<Filed>,
}

impl View for StaticCatalog {
    type V = Records;

    closed spec fn view(&self) -> Records {
        Seq::new(self.filed@.len(), |i: int| (self.filed@[i].key@, self.filed@[i].record@))
    }
}

/// Reads the ingredients that a document stands for.
pub fn read_ingredients(doc: &JsonValue) -> (list: Vec<Ingredient>)
    ensures
        ingredients_view(list@) == ingredients_of(*doc),
{
    let ks = keys(doc);
    let mut list: Vec<Ingredient> = Vec::new();
    let mut i: usize = 0;
    while i < ks.len()
        invariant
            i <= ks@.len(),
            ks.deep_view() == keys_of(*doc),
            list@.len() == i,
            forall|j: int| 0 <= j < i ==> (#[trigger] list@[j])@ == ingredients_of(*doc)[j],
        decreases ks@.len() - i,
    {
        assert(ks.deep_view()[i as int] == ks@[i as int]@);
        let amount = show(member(doc, ks[i].as_str()));
        list.push(Ingredient { key: ks[i].clone(), amount });
        i = i + 1;
    }
    assert(ingredients_view(list@) =~= ingredients_of(*doc));
    list
}

/// Reads the record that a document stands for.
fn read_record(doc: &JsonValue) -> (record: CatalogRecord)
    ensures
        record@ == record_of(*doc),
{
    let name = show(member(doc, "wiki-name"));
    let display_name = if same_text(name.as_str(), "null") {
        None
    } else {
        Some(name)
    };
    CatalogRecord {
        display_name,
        cost: show(member(doc, "energy-required")),
        inputs: read_ingredients(member(doc, "inputs")),
        outputs: read_ingredients(member(doc, "outputs")),
    }
}

impl StaticCatalog {
    /// A catalog of the given records, each under its key: the first key
    /// with the first record, and so on for as many pairs as both lists
    /// have. What one list has beyond the other is left out.
    pub fn from_parts(keys: Vec<String>, records: Vec<CatalogRecord>) -> (catalog: StaticCatalog)
        ensures
            catalog@.len() == if keys@.len() <= records@.len() {
                keys@.len()
            } else {
                records@.len()
            },
            forall|i: int|
                0 <= i < catalog@.len() ==> (#[trigger] catalog@[i]) == (keys@[i]@, records@[i]@),
    {
        let mut keys = keys;
        let mut records = records;
        let ghost ks = keys@;
        let ghost rs = records@;
        let pairs: usize = if keys.len() <= records.len() {
            keys.len()
        } else {
            records.len()
        };
        keys.truncate(pairs);
        records.truncate(pairs);
        let mut reversed: Vec<Filed> = Vec::new();
        while keys.len() > 0
            invariant
                keys@.len() == records@.len(),
                keys@.len() + reversed@.len() == pairs,
                pairs <= ks.len(),
                pairs <= rs.len(),
                forall|j: int| 0 <= j < keys@.len() ==> keys@[j] == ks[j] && records@[j] == rs[j],
                forall|j: int|
                    0 <= j < reversed@.len() ==> (#[trigger] reversed@[j]).key == ks[pairs - 1 - j]
                        && reversed@[j].record == rs[pairs - 1 - j],
            decreases keys@.len(),
        {
            let key = keys.pop().unwrap();
            let record = records.pop().unwrap();
            reversed.push(Filed { key, record });
        }
        let mut filed: Vec<Filed> = Vec::new();
        while reversed.len() > 0
            invariant
                filed@.len() + reversed@.len() == pairs,
                pairs <= ks.len(),
                pairs <= rs.len(),
                forall|j: int|
                    0 <= j < reversed@.len() ==> (#[trigger] reversed@[j]).key == ks[pairs - 1 - j]
                        && reversed@[j].record == rs[pairs - 1 - j],
                forall|j: int|
                    0 <= j < filed@.len() ==> (#[trigger] filed@[j]).key == ks[j] && filed@[j].record
                        == rs[j],
            decreases reversed@.len(),
        {
            let next = reversed.pop().unwrap();
            filed.push(next);
        }
        StaticCatalog { filed }
    }

    /// Reads the catalog that a document stands for.
    pub fn from_document(doc: &JsonValue) -> (catalog: StaticCatalog)
        ensures
            catalog@ == records_of(*doc),
    {
        let ks = keys(doc);
        let mut filed: Vec<Filed> = Vec::new();
        let mut i: usize = 0;
        while i < ks.len()
            invariant
                i <= ks@.len(),
                ks.deep_view() == keys_of(*doc),
                filed@.len() == i,
                forall|j: int|
                    0 <= j < i ==> ((#[trigger] filed@[j]).key@, filed@[j].record@) == records_of(
                        *doc,
                    )[j],
            decreases ks@.len() - i,
        {
            assert(ks.deep_view()[i as int] == ks@[i as int]@);
            let record = read_record(member(doc, ks[i].as_str()));
            filed.push(Filed { key: ks[i].clone(), record });
            i = i + 1;
        }
        let catalog = StaticCatalog { filed };
        assert(catalog@ =~= records_of(*doc));
        catalog
    }

    /// Loads the catalog from the text of its file, or from `None` where
    /// there is no file. No text makes this fail: what is no JSON gives the
    /// empty catalog, in which nothing is found.
    pub fn load(stored: Option<&str>) -> (catalog: StaticCatalog)
        ensures
            catalog@ == loaded_records(stored_view(stored)),
    {
        let doc = match stored {
            Some(text) => read(text),
            None => None,
        };
        match doc {
            Some(doc) => StaticCatalog::from_document(&doc),
            None => {
                let catalog = StaticCatalog { filed: Vec::new() };
                assert(catalog@ =~= Records::empty());
                catalog
            },
        }
    }

    /// The number of records.
    pub fn len(&self) -> (n: usize)
        ensures
            n == self@.len(),
    {
        self.filed.len()
    }

    /// Whether the catalog holds nothing.
    pub fn is_empty(&self) -> (b: bool)
        ensures
            b == (self@.len() == 0),
    {
        self.filed.len() == 0
    }

    /// The first record filed under `key`, if there is one.
    pub fn record(&self, key: &str) -> (r: Option<&CatalogRecord>)
        ensures
            match r {
                Some(record) => record_under(self@, key@) == Some(record@),
                None => record_under(self@, key@) is None,
            },
    {
        let mut i: usize = 0;
        while i < self.filed.len()
            invariant
                i <= self.filed@.len(),
                first_under_from(self@, key@, 0) == first_under_from(self@, key@, i as int),
            decreases self.filed@.len() - i,
        {
            if same_text(self.filed[i].key.as_str(), key) {
                assert(self@[i as int].0 == key@);
                return Some(&self.filed[i].record);
            }
            assert(self@[i as int].0 != key@);
            i = i + 1;
        }
        None
    }

    /// Resolves a query to the nearest key of the catalog, within the fixed
    /// sensitivity. In an empty catalog nothing matches.
    pub fn lookup(&self, query: &str) -> (m: Match)
        ensures
            m@ == closest_spec(
                record_keys(self@),
                record_keys(self@),
                query@,
                DISTANCE_SENSITIVITY as nat,
            ),
    {
        let mut candidates: Vec<Candidate> = Vec::new();
        let mut i: usize = 0;
        while i < self.filed.len()
            invariant
                i <= self.filed@.len(),
                candidates@.len() == i,
                forall|j: int|
                    0 <= j < i ==> (#[trigger] candidates@[j]).key@ == self@[j].0
                        && candidates@[j].text@ == self@[j].0,
            decreases self.filed@.len() - i,
        {
            candidates.push(
                Candidate { key: self.filed[i].key.clone(), text: self.filed[i].key.clone() },
            );
            i = i + 1;
        }
        proof {
            assert(candidate_keys(candidates@) =~= record_keys(self@));
            assert(candidate_texts(candidates@) =~= record_keys(self@));
        }
        closest(&candidates, query, DISTANCE_SENSITIVITY)
    }

    /// The name to display for the item filed under `key`: its display name
    /// in the catalog, and the key itself where the catalog does not know
    /// one.
    pub fn display_name(&self, key: &str) -> (name: String)
        ensures
            name@ == display_name_of(self@, key@),
    {
        match self.record(key) {
            Some(record) => match &record.display_name {
                Some(name) => name.clone(),
                None => String::from_str(key),
            },
            None => String::from_str(key),
        }
    }

    /// One side of a recipe as text: `None` for an empty side; else each
    /// ingredient by the name to display, ` x` and its amount, separated by
    /// a comma and a space.
    pub fn describe(&self, items: &Vec<Ingredient>) -> (text: String)
        ensures
            text@ == recipe_io(self@, ingredients_view(items@)),
    {
        if items.len() == 0 {
            return String::from_str("None");
        }
        let ghost views = ingredients_view(items@);
        let mut out = String::new();
        let mut i: usize = 0;
        while i < items.len()
            invariant
                i <= items@.len(),
                views == ingredients_view(items@),
                out@ == listing(self@, views, i as int),
            decreases items@.len() - i,
        {
            if i > 0 {
                out.append(", ");
            }
            let name = self.display_name(items[i].key.as_str());
            out.append(name.as_str());
            out.append(" x");
            out.append(items[i].amount.as_str());
            proof {
                assert(views[i as int] == items@[i as int]@);
                let one = listed(self@, views[i as int]);
                if i == 0 {
                    assert(out@ =~= one);
                } else {
                    assert(out@ =~= listing(self@, views, i as int) + ", "@ + one);
                }
            }
            i = i + 1;
        }
        out
    }

    /// One side of a recipe, as a document holds it, as text: `None` for a
    /// document that is empty; else its keys, each by the name to display,
    /// ` x` and what the value under it shows as, separated by a comma and
    /// a space.
    pub fn serialize_recipe_io(&self, value: &JsonValue) -> (text: String)
        ensures
            text@ == if blank(*value) {
                "None"@
            } else {
                listing(self@, ingredients_of(*value), ingredients_of(*value).len() as int)
            },
    {
        if is_blank(value) {
            return String::from_str("None");
        }
        let items = read_ingredients(value);
        if items.len() == 0 {
            return String::new();
        }
        self.describe(&items)
    }
}

} // verus!
