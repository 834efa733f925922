//! The table of command prefixes: one short trigger text per community,
//! shared by the whole process.
//!
//! The table lives in memory. It is installed once from the text of the
//! combined prefix file, and written back in full by `backup`, which the
//! caller owes after every `register`: until then a change is in memory
//! only, and lost if the process ends. The caller also owes the lock: one
//! mutex around the whole table.

use crate::decimal::{decimal, digits, lemma_u64_of_digits, parse_u64, u64_of};
use crate::document::{
    dump, dumped, keys, keys_of, member, member_of, new_object, read, read_as, set_member, show,
    shown, text_value,
};
use crate::store::{stored_view, LoadStatus};
use json::JsonValue;
use std::collections::HashMap;
use vstd::prelude::*;
use vstd::std_specs::hash::group_hash_axioms;
use vstd::std_specs::iter::IteratorSpec;

verus! {

broadcast use group_hash_axioms;

/// A table of prefixes as a mathematical value: from a community's number
/// to its prefix.
pub type Prefixes = Map<u64, Seq<char>>;

/// Whether `key` is the decimal text of the number of a community in the
/// table.
pub open spec fn stands_for_key(table: Prefixes, key: Seq<char>) -> bool {
    u64_of(key) matches Some(id) && table.contains_key(id) && key == digits(id as nat)
}

/// Whether a document holds a table: its keys are the decimal texts of the
/// numbers of the communities in the table, and under each stands a value
/// that shows as the community's prefix.
pub open spec fn holds_table(doc: JsonValue, table: Prefixes) -> bool {
    &&& forall|id: u64| #[trigger]
        table.contains_key(id) ==> keys_of(doc).contains(digits(id as nat)) && shown(
            member_of(doc, digits(id as nat)),
        ) == table[id]
    &&& forall|i: int|
        0 <= i < keys_of(doc).len() ==> stands_for_key(table, #[trigger] keys_of(doc)[i])
}

/// The table made of a list of keys and a list of prefixes, pair by pair,
/// a later pair replacing an earlier one for the same community; nothing if
/// the lists differ in length or a key is not the text of a 64-bit number.
pub open spec fn table_of(keys: Seq<Seq<char>>, prefixes: Seq<Seq<char>>) -> Option<Prefixes>
    decreases keys.len(),
{
    if keys.len() != prefixes.len() {
        None
    } else if keys.len() == 0 {
        Some(Prefixes::empty())
    } else {
        match (table_of(keys.drop_last(), prefixes.drop_last()), u64_of(keys.last())) {
            (Some(front), Some(id)) => Some(front.insert(id, prefixes.last())),
            _ => None,
        }
    }
}

/// What the values under the keys of a document show as, in the order of
/// the keys.
pub open spec fn member_prefixes(doc: JsonValue) -> Seq<Seq<char>> {
    Seq::new(keys_of(doc).len(), |i: int| shown(member_of(doc, keys_of(doc)[i])))
}

/// The table that a document stands for; nothing if one of its keys is not
/// the text of a 64-bit number. A document that is no object stands for
/// the empty table.
pub open spec fn document_table(doc: JsonValue) -> Option<Prefixes> {
    table_of(keys_of(doc), member_prefixes(doc))
}

/// The table that the text of the prefix file stands for.
pub open spec fn readable_table(text: Seq<char>) -> Option<Prefixes> {
    match read_as(text) {
        Some(doc) => document_table(doc),
        None => None,
    }
}

/// The table that is installed, given the text of the prefix file: the
/// table that the text stands for, and the empty one where there is no file
/// or the text stands for none.
pub open spec fn installed(stored: Option<Seq<char>>) -> Prefixes {
    match stored {
        Some(text) => match readable_table(text) {
            Some(table) => table,
            None => Prefixes::empty(),
        },
        None => Prefixes::empty(),
    }
}

/// How the table comes to be installed, given the text of the prefix file.
pub open spec fn install_status(stored: Option<Seq<char>>) -> LoadStatus {
    match stored {
        Some(text) => match readable_table(text) {
            Some(_) => LoadStatus::Loaded,
            None => LoadStatus::Unreadable,
        },
        None => LoadStatus::Absent,
    }
}

/// Whether `text` is what the JSON writer makes of a document that holds
/// the table.
pub open spec fn written_table(text: Seq<char>, table: Prefixes) -> bool {
    exists|doc: JsonValue| holds_table(doc, table) && text == #[trigger] dumped(doc)
}

/// The table made of the first `n` pairs holds, for each of their keys, the
/// prefix that `table` has for it, and no other community.
proof fn lemma_table_of_prefix(
    keys: Seq<Seq<char>>,
    prefixes: Seq<Seq<char>>,
    table: Prefixes,
    n: int,
)
    requires
        keys.len() == prefixes.len(),
        0 <= n <= keys.len(),
        forall|i: int|
            0 <= i < keys.len() ==> stands_for_key(table, #[trigger] keys[i]) && prefixes[i]
                == table[u64_of(keys[i])->0],
    ensures
        table_of(keys.take(n), prefixes.take(n)) is Some,
        forall|id: u64| #[trigger]
            table_of(keys.take(n), prefixes.take(n))->0.contains_key(id) <==> exists|i: int|
                0 <= i < n && u64_of(#[trigger] keys[i]) == Some(id),
        forall|id: u64| #[trigger]
            table_of(keys.take(n), prefixes.take(n))->0.contains_key(id) ==> table_of(
                keys.take(n),
                prefixes.take(n),
            )->0[id] == table[id],
    decreases n,
{
    if n > 0 {
        lemma_table_of_prefix(keys, prefixes, table, n - 1);
        assert(keys.take(n).drop_last() =~= keys.take(n - 1));
        assert(prefixes.take(n).drop_last() =~= prefixes.take(n - 1));
        assert(keys.take(n).last() == keys[n - 1]);
        assert(prefixes.take(n).last() == prefixes[n - 1]);
        assert(stands_for_key(table, keys[n - 1]));
        let front = table_of(keys.take(n - 1), prefixes.take(n - 1))->0;
        let all = table_of(keys.take(n), prefixes.take(n))->0;
        let last = u64_of(keys[n - 1])->0;
        assert(all == front.insert(last, prefixes[n - 1]));
        assert forall|id: u64| #[trigger] all.contains_key(id) implies exists|i: int|
            0 <= i < n && u64_of(#[trigger] keys[i]) == Some(id) by {
            if id == last {
                assert(u64_of(keys[n - 1]) == Some(id));
            } else {
                assert(front.contains_key(id));
                let i = choose|i: int| 0 <= i < n - 1 && u64_of(#[trigger] keys[i]) == Some(id);
                assert(u64_of(keys[i]) == Some(id));
            }
        }
        assert forall|id: u64|
            (exists|i: int| 0 <= i < n && u64_of(#[trigger] keys[i]) == Some(id)) implies #[trigger]
            all.contains_key(id) by {
            let i = choose|i: int| 0 <= i < n && u64_of(#[trigger] keys[i]) == Some(id);
            if i < n - 1 {
                assert(front.contains_key(id));
            }
        }
    }
}

/// A document that holds a table stands for that table: building the
/// document and reading it again yields the same prefix for the same
/// communities.
pub proof fn lemma_table_round_trip(doc: JsonValue, table: Prefixes)
    requires
        holds_table(doc, table),
    ensures
        document_table(doc) == Some(table),
{
    let ks = keys_of(doc);
    let ps = member_prefixes(doc);
    assert forall|i: int| 0 <= i < ks.len() implies stands_for_key(table, #[trigger] ks[i]) && ps[i]
        == table[u64_of(ks[i])->0] by {
        let id = u64_of(ks[i])->0;
        assert(table.contains_key(id));
    }
    lemma_table_of_prefix(ks, ps, table, ks.len() as int);
    assert(ks.take(ks.len() as int) =~= ks);
    assert(ps.take(ps.len() as int) =~= ps);
    let read = table_of(ks, ps)->0;
    assert forall|id: u64| table.contains_key(id) implies #[trigger] read.contains_key(id) by {
        let i = choose|i: int| 0 <= i < ks.len() && ks[i] == digits(id as nat);
        lemma_u64_of_digits(id);
        assert(u64_of(ks[i]) == Some(id));
    }
    assert forall|id: u64| #[trigger] read.contains_key(id) implies table.contains_key(id) by {
        let i = choose|i: int| 0 <= i < ks.len() && u64_of(#[trigger] ks[i]) == Some(id);
        assert(stands_for_key(table, ks[i]));
    }
    assert(read =~= table);
}

/// Where the first `n` pairs make no table, all the pairs make none.
proof fn lemma_table_of_none(keys: Seq<Seq<char>>, prefixes: Seq<Seq<char>>, n: int)
    requires
        keys.len() == prefixes.len(),
        0 <= n <= keys.len(),
        table_of(keys.take(n), prefixes.take(n)) is None,
    ensures
        table_of(keys, prefixes) is None,
    decreases keys.len() - n,
{
    if n < keys.len() {
        assert(keys.take(n + 1).drop_last() =~= keys.take(n));
        assert(prefixes.take(n + 1).drop_last() =~= prefixes.take(n));
        lemma_table_of_none(keys, prefixes, n + 1);
    } else {
        assert(keys.take(n) =~= keys);
        assert(prefixes.take(n) =~= prefixes);
    }
}

/// The table of prefixes.
pub struct PrefixRegistry {
    table: HashMap<u64, String>,
}

impl View for PrefixRegistry {
    type V = Prefixes;

    closed spec fn view(&self) -> Prefixes {
        self.table@.map_values(|prefix: String| prefix@)
    }
}

impl PrefixRegistry {
    /// A table without prefixes.
    pub fn new() -> (registry: PrefixRegistry)
        ensures
            registry@ == Prefixes::empty(),
    {
        let registry = PrefixRegistry { table: HashMap::new() };
        assert(registry@ =~= Prefixes::empty());
        registry
    }

    /// The prefix of a community, or `None` if it has none: then commands
    /// are given by mention only.
    pub fn get(&self, partition: u64) -> (prefix: Option<String>)
        ensures
            match prefix {
                Some(p) => self@.contains_key(partition) && p@ == self@[partition],
                None => !self@.contains_key(partition),
            },
    {
        match self.table.get(&partition) {
            Some(p) => Some(p.clone()),
            None => None,
        }
    }

    /// The prefix of a community, or the empty text if it has none.
    pub fn get_prefix_for_guild(&self, id: u64) -> (prefix: String)
        ensures
            prefix@ == if self@.contains_key(id) {
                self@[id]
            } else {
                Seq::<char>::empty()
            },
    {
        match self.table.get(&id) {
            Some(p) => p.clone(),
            None => String::new(),
        }
    }

    /// Sets the prefix of a community and returns the prefix that it had
    /// before, if any. The other communities keep theirs.
    pub fn register(&mut self, partition: u64, new_prefix: String) -> (previous: Option<String>)
        ensures
            final(self)@ == old(self)@.insert(partition, new_prefix@),
            match previous {
                Some(p) => old(self)@.contains_key(partition) && p@ == old(self)@[partition],
                None => !old(self)@.contains_key(partition),
            },
    {
        let ghost before = self.table@;
        let previous = self.table.insert(partition, new_prefix);
        proof {
            assert(self.table@ == before.insert(partition, new_prefix));
            assert(self@ =~= old(self)@.insert(partition, new_prefix@));
        }
        previous
    }

    /// The table made of `keys` and `prefixes`, pair by pair, a later pair
    /// replacing an earlier one for the same community; nothing if the
    /// lists differ in length or a key is not the text of a 64-bit number.
    pub fn from_parts(keys: &Vec<String>, prefixes: &Vec<String>) -> (r: Option<PrefixRegistry>)
        ensures
            match r {
                Some(registry) => table_of(keys.deep_view(), prefixes.deep_view()) == Some(
                    registry@,
                ),
                None => table_of(keys.deep_view(), prefixes.deep_view()) is None,
            },
    {
        if keys.len() != prefixes.len() {
            return None;
        }
        let ghost ks = keys.deep_view();
        let ghost ps = prefixes.deep_view();
        let mut registry = PrefixRegistry::new();
        let mut i: usize = 0;
        proof {
            assert(ks.take(0) =~= Seq::<Seq<char>>::empty());
            assert(ps.take(0) =~= Seq::<Seq<char>>::empty());
        }
        while i < keys.len()
            invariant
                i <= keys@.len(),
                keys@.len() == prefixes@.len(),
                ks == keys.deep_view(),
                ps == prefixes.deep_view(),
                table_of(ks.take(i as int), ps.take(i as int)) == Some(registry@),
            decreases keys@.len() - i,
        {
            proof {
                assert(ks.take(i + 1).drop_last() =~= ks.take(i as int));
                assert(ps.take(i + 1).drop_last() =~= ps.take(i as int));
                assert(ks.take(i + 1).last() == keys@[i as int]@);
                assert(ps.take(i + 1).last() == prefixes@[i as int]@);
            }
            match parse_u64(keys[i].as_str()) {
                Some(id) => {
                    let _ = registry.register(id, prefixes[i].clone());
                },
                None => {
                    proof {
                        lemma_table_of_none(ks, ps, i + 1);
                    }
                    return None;
                },
            }
            i = i + 1;
        }
        proof {
            assert(ks.take(i as int) =~= ks);
            assert(ps.take(i as int) =~= ps);
        }
        Some(registry)
    }

    /// Reads the table that a document stands for.
    pub fn from_document(doc: &JsonValue) -> (r: Option<PrefixRegistry>)
        ensures
            match r {
                Some(registry) => document_table(*doc) == Some(registry@),
                None => document_table(*doc) is None,
            },
    {
        let ks = keys(doc);
        let mut prefixes: Vec<String> = Vec::new();
        let mut i: usize = 0;
        while i < ks.len()
            invariant
                i <= ks@.len(),
                ks.deep_view() == keys_of(*doc),
                prefixes@.len() == i,
                forall|j: int| 0 <= j < i ==> (#[trigger] prefixes@[j])@ == member_prefixes(*doc)[j],
            decreases ks@.len() - i,
        {
            assert(ks.deep_view()[i as int] == ks@[i as int]@);
            let shown = show(member(doc, ks[i].as_str()));
            prefixes.push(shown);
            i = i + 1;
        }
        assert(prefixes.deep_view() =~= member_prefixes(*doc));
        PrefixRegistry::from_parts(&ks, &prefixes)
    }

    /// Installs the table from the text of the prefix file, or from `None`
    /// where there is no file. No text makes this fail: what cannot be read
    /// gives the empty table, and the status says so. With `Absent` the
    /// caller owes the file, with an empty table in it.
    pub fn install(stored: Option<&str>) -> (r: (PrefixRegistry, LoadStatus))
        ensures
            r.0@ == installed(stored_view(stored)),
            r.1 == install_status(stored_view(stored)),
    {
        match stored {
            None => (PrefixRegistry::new(), LoadStatus::Absent),
            Some(text) => {
                let table = match read(text) {
                    Some(doc) => PrefixRegistry::from_document(&doc),
                    None => None,
                };
                match table {
                    Some(registry) => (registry, LoadStatus::Loaded),
                    None => (PrefixRegistry::new(), LoadStatus::Unreadable),
                }
            },
        }
    }

    /// The text to write to the prefix file: the whole table.
    pub fn backup(&self) -> (text: String)
        ensures
            written_table(text@, self@),
    {
        let doc = self.to_document();
        dump(&doc)
    }

    /// The document that holds the table: under the decimal text of each
    /// community's number, its prefix.
    pub fn to_document(&self) -> (doc: JsonValue)
        ensures
            holds_table(doc, self@),
            document_table(doc) == Some(self@),
    {
        let mut doc = new_object();
        for pair in it: self.table.iter()
            invariant
                it.seq() == self.table.iter().remaining(),
                it.seq().no_duplicates(),
                keys_of(doc).len() == it.index(),
                forall|j: int|
                    0 <= j < it.index() ==> (#[trigger] keys_of(doc)[j]) == digits(
                        *it.seq()[j].0 as nat,
                    ),
                forall|j: int|
                    0 <= j < it.index() ==> shown(member_of(doc, #[trigger] keys_of(doc)[j]))
                        == it.seq()[j].1@,
        {
            let (id, prefix) = pair;
            let key = decimal(*id);
            let ghost before = doc;
            let ghost at = it.index() as int;
            proof {
                assert(pair == it.seq()[at]);
                if keys_of(before).contains(key@) {
                    let j = choose|j: int| 0 <= j < keys_of(before).len() && keys_of(before)[j] == key@;
                    lemma_u64_of_digits(*it.seq()[j].0);
                    lemma_u64_of_digits(*id);
                    assert(*it.seq()[j].0 == *id);
                    assert(self.table@[*id] == *it.seq()[j].1);
                    assert(self.table@[*id] == *it.seq()[at].1);
                    assert(it.seq()[j] == it.seq()[at]);
                }
            }
            set_member(&mut doc, key.as_str(), text_value(prefix.as_str()));
            proof {
                assert forall|j: int| 0 <= j < at + 1 implies shown(
                    member_of(doc, #[trigger] keys_of(doc)[j]),
                ) == it.seq()[j].1@ by {
                    if j < at {
                        assert(keys_of(before)[j] == keys_of(doc)[j]);
                        assert(keys_of(before).contains(keys_of(before)[j]));
                    }
                }
            }
        }
        proof {
            let pairs = self.table.iter().remaining();
            assert forall|k: u64| #[trigger] self@.contains_key(k) implies keys_of(doc).contains(
                digits(k as nat),
            ) && shown(member_of(doc, digits(k as nat))) == self@[k] by {
                assert(self.table@.contains_key(k));
                assert(pairs.contains((&k, &self.table@[k])));
                let j = choose|j: int| 0 <= j < pairs.len() && pairs[j] == (&k, &self.table@[k]);
                assert(keys_of(doc)[j] == digits(k as nat));
            }
            assert forall|i: int| 0 <= i < keys_of(doc).len() implies stands_for_key(
                self@,
                #[trigger] keys_of(doc)[i],
            ) by {
                let k = *pairs[i].0;
                lemma_u64_of_digits(k);
                assert(self.table@.contains_key(k));
            }
            lemma_table_round_trip(doc, self@);
        }
        doc
    }

    /// The number of communities with a prefix.
    pub fn len(&self) -> (n: usize)
        ensures
            n == self@.len(),
            self@.dom().finite(),
    {
        proof {
            assert(self@.dom() =~= self.table@.dom());
        }
        self.table.len()
    }
}

} // verus!
