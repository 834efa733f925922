//! What the mod portal says of a modder, made ready to show.

use crate::document::{items, items_of, mantissa_of, member_of};
use crate::mods::{counts_downloads, mod_shows, parse_json_into_mod, Mod};
use crate::text::{chars_of, lex_less, less_than};
use json::JsonValue;
use vstd::prelude::*;
use vstd::string::StringExecFns;

verus! {

/// What the downloads of all the mods of a modder earn them.
pub open spec fn modder_popularity_text(downloads: u64) -> Seq<char> {
    if downloads <= 200 {
        ":asterisk: Learning the ropes! :asterisk:"@
    } else if downloads <= 1000 {
        ":grin: Rising star! :grin:"@
    } else if downloads <= 5000 {
        ":third_place: Gathering a following... :third_place:"@
    } else if downloads <= 10000 {
        ":second_place: Excellent mod maker! :second_place:"@
    } else if downloads <= 50000 {
        ":first_place: Pretty popular! :first_place:"@
    } else if downloads <= 80000 {
        ":military_medal: Beloved by the community! :military_medal:"@
    } else if downloads <= 100000 {
        ":medal: Viral! :medal:"@
    } else if downloads <= 500000 {
        ":100: Hundreds of thousands of players! :100:"@
    } else if downloads <= 1000000 {
        ":eight_pointed_black_star: Approaching the 1 million club! :eight_pointed_black_star:"@
    } else if downloads <= 1050000 {
        ":spaghetti: 1 Million club achieved! :spaghetti:"@
    } else {
        ":heart_eyes: Superstar modder! :heart_eyes:"@
    }
}

/// What the downloads of all the mods of a modder earn them.
pub fn modder_popularity(downloads: u64) -> (label: &'static str)
    ensures
        label@ == modder_popularity_text(downloads),
{
    if downloads <= 200 {
        ":asterisk: Learning the ropes! :asterisk:"
    } else if downloads <= 1000 {
        ":grin: Rising star! :grin:"
    } else if downloads <= 5000 {
        ":third_place: Gathering a following... :third_place:"
    } else if downloads <= 10000 {
        ":second_place: Excellent mod maker! :second_place:"
    } else if downloads <= 50000 {
        ":first_place: Pretty popular! :first_place:"
    } else if downloads <= 80000 {
        ":military_medal: Beloved by the community! :military_medal:"
    } else if downloads <= 100000 {
        ":medal: Viral! :medal:"
    } else if downloads <= 500000 {
        ":100: Hundreds of thousands of players! :100:"
    } else if downloads <= 1000000 {
        ":eight_pointed_black_star: Approaching the 1 million club! :eight_pointed_black_star:"
    } else if downloads <= 1050000 {
        ":spaghetti: 1 Million club achieved! :spaghetti:"
    } else {
        ":heart_eyes: Superstar modder! :heart_eyes:"
    }
}

/// What is known of a modder: the downloads of all their mods, and the
/// mods of note.
#[derive(Debug, Clone, PartialEq, Eq)]
pub struct Modder {
    pub username: String,
    pub total_downloads: u64,
    pub latest_mod: Mod,
    pub last_updated_mod_date: String,
    pub first_mod: Mod,
    pub last_updated_mod: Mod,
}

/// The days on which the mods were created, in the order of the mods.
pub open spec fn creation_dates(mods: Seq<Mod>) -> Seq<Seq<char>> {
    Seq::new(mods.len(), |i: int| mods[i].creation_date@)
}

/// The days on which the mods were last updated, in the order of the mods.
pub open spec fn update_dates(mods: Seq<Mod>) -> Seq<Seq<char>> {
    Seq::new(mods.len(), |i: int| mods[i].last_updated@)
}

/// The downloads of the first `n` mods together.
pub open spec fn downloads_sum(mods: Seq<Mod>, n: int) -> nat
    decreases n,
{
    if n <= 0 {
        0
    } else {
        downloads_sum(mods, n - 1) + mods[n - 1].download_count as nat
    }
}

/// The place of the latest of the dates: among those that come last in
/// lexicographic order, the first. Zero for an empty list.
pub open spec fn latest_index(dates: Seq<Seq<char>>) -> int
    decreases dates.len(),
{
    if dates.len() <= 1 {
        0
    } else {
        let r = latest_index(dates.drop_last());
        if lex_less(dates[r], dates.last()) {
            dates.len() - 1
        } else {
            r
        }
    }
}

/// The place of the earliest of the dates: among those that come first in
/// lexicographic order, the first. Zero for an empty list.
pub open spec fn earliest_index(dates: Seq<Seq<char>>) -> int
    decreases dates.len(),
{
    if dates.len() <= 1 {
        0
    } else {
        let r = earliest_index(dates.drop_last());
        if lex_less(dates.last(), dates[r]) {
            dates.len() - 1
        } else {
            r
        }
    }
}

/// The place of the latest or, with `earliest`, of the earliest of the
/// dates.
fn extreme_place(dates: &Vec<String>, earliest: bool) -> (r: usize)
    requires
        dates@.len() > 0,
    ensures
        r < dates@.len(),
        r == if earliest {
            earliest_index(dates.deep_view())
        } else {
            latest_index(dates.deep_view())
        },
{
    let ghost all = dates.deep_view();
    let mut best: usize = 0;
    let mut i: usize = 1;
    proof {
        assert(all.take(1).len() == 1);
    }
    while i < dates.len()
        invariant
            1 <= i <= dates@.len(),
            best < i,
            all == dates.deep_view(),
            best == if earliest {
                earliest_index(all.take(i as int))
            } else {
                latest_index(all.take(i as int))
            },
        decreases dates@.len() - i,
    {
        proof {
            let next = all.take(i + 1);
            assert(next.drop_last() =~= all.take(i as int));
            assert(next.last() == dates@[i as int]@);
            assert(next[best as int] == dates@[best as int]@);
        }
        let here = chars_of(dates[i].as_str());
        let held = chars_of(dates[best].as_str());
        let better = if earliest {
            less_than(here.as_slice(), held.as_slice())
        } else {
            less_than(held.as_slice(), here.as_slice())
        };
        if better {
            best = i;
        }
        i = i + 1;
    }
    proof {
        assert(all.take(i as int) =~= all);
    }
    best
}

/// Whether `m` is what is known of the modder `username` with the mods
/// `mods`: the downloads of all of them together; the mod created last and
/// the mod created first; the mod updated last, and the day of that update.
/// Among mods of the same day the first in the list counts.
pub open spec fn modder_shows(m: Modder, username: Seq<char>, mods: Seq<Mod>) -> bool {
    &&& m.username@ == username
    &&& m.total_downloads == downloads_sum(mods, mods.len() as int)
    &&& m.latest_mod == mods[latest_index(creation_dates(mods))]
    &&& m.first_mod == mods[earliest_index(creation_dates(mods))]
    &&& m.last_updated_mod == mods[latest_index(update_dates(mods))]
    &&& m.last_updated_mod_date@ == m.last_updated_mod.last_updated@
}

impl Modder {
    /// What is known of a modder, made of their mods. Nothing for a modder
    /// without mods, or where the downloads together do not fit 64 bits.
    pub fn from_mods(username: &str, mods: &Vec<Mod>) -> (r: Option<Modder>)
        ensures
            r is Some <==> mods@.len() > 0 && downloads_sum(mods@, mods@.len() as int) <= u64::MAX,
            r matches Some(m) ==> modder_shows(m, username@, mods@),
    {
        if mods.len() == 0 {
            return None;
        }
        let mut total: u64 = 0;
        let mut i: usize = 0;
        while i < mods.len()
            invariant
                i <= mods@.len(),
                total == downloads_sum(mods@, i as int),
            decreases mods@.len() - i,
        {
            match total.checked_add(mods[i].download_count) {
                Some(sum) => {
                    total = sum;
                },
                None => {
                    proof {
                        lemma_downloads_sum_grows(mods@, i + 1, mods@.len() as int);
                    }
                    return None;
                },
            }
            i = i + 1;
        }
        let mut created: Vec<String> = Vec::new();
        let mut updated: Vec<String> = Vec::new();
        let mut k: usize = 0;
        while k < mods.len()
            invariant
                k <= mods@.len(),
                created@.len() == k,
                updated@.len() == k,
                forall|j: int| 0 <= j < k ==> (#[trigger] created@[j])@ == mods@[j].creation_date@,
                forall|j: int| 0 <= j < k ==> (#[trigger] updated@[j])@ == mods@[j].last_updated@,
            decreases mods@.len() - k,
        {
            created.push(mods[k].creation_date.clone());
            updated.push(mods[k].last_updated.clone());
            k = k + 1;
        }
        proof {
            assert(created.deep_view() =~= creation_dates(mods@));
            assert(updated.deep_view() =~= update_dates(mods@));
        }
        let latest = extreme_place(&created, false);
        let first = extreme_place(&created, true);
        let updated = extreme_place(&updated, false);
        let last_updated_mod = mods[updated].duplicate();
        Some(
            Modder {
                username: String::from_str(username),
                total_downloads: total,
                latest_mod: mods[latest].duplicate(),
                last_updated_mod_date: last_updated_mod.last_updated.clone(),
                first_mod: mods[first].duplicate(),
                last_updated_mod,
            },
        )
    }
}

/// The downloads of more mods together are no fewer.
proof fn lemma_downloads_sum_grows(mods: Seq<Mod>, n: int, m: int)
    requires
        0 <= n <= m,
    ensures
        downloads_sum(mods, n) <= downloads_sum(mods, m),
    decreases m - n,
{
    if n < m {
        lemma_downloads_sum_grows(mods, n, m - 1);
    }
}

/// Whether `mods` are the mods that the members of a document stand for,
/// one for one.
pub open spec fn mods_show(mods: Seq<Mod>, json: JsonValue) -> bool {
    &&& mods.len() == items_of(json).len()
    &&& forall|i: int| 0 <= i < mods.len() ==> mod_shows(#[trigger] mods[i], items_of(json)[i])
}

/// Whether every member of a document gives a number of downloads.
pub open spec fn all_count_downloads(json: JsonValue) -> bool {
    forall|i: int| 0 <= i < items_of(json).len() ==> counts_downloads(#[trigger] items_of(json)[i])
}

/// The downloads that the first `n` members of a document give, together.
pub open spec fn counted_downloads(json: JsonValue, n: int) -> nat
    decreases n,
{
    if n <= 0 {
        0
    } else {
        counted_downloads(json, n - 1) + match mantissa_of(
            member_of(items_of(json)[n - 1], "downloads_count"@),
        ) {
            Some(count) => count as nat,
            None => 0,
        }
    }
}

/// The mods that the members of a document stand for have the downloads
/// that the members give.
proof fn lemma_counted_downloads(mods: Seq<Mod>, json: JsonValue, n: int)
    requires
        mods_show(mods, json),
        0 <= n <= mods.len(),
    ensures
        downloads_sum(mods, n) == counted_downloads(json, n),
    decreases n,
{
    if n > 0 {
        lemma_counted_downloads(mods, json, n - 1);
        assert(mod_shows(mods[n - 1], items_of(json)[n - 1]));
    }
}

/// The mods that the members of a document stand for, one for one; nothing
/// if one of the members gives no number of downloads.
pub fn read_mods(json: &JsonValue) -> (r: Option<Vec<Mod>>)
    ensures
        r is Some <==> all_count_downloads(*json),
        r matches Some(mods) ==> mods_show(mods@, *json),
{
    let members = items(json);
    let mut mods: Vec<Mod> = Vec::new();
    let mut i: usize = 0;
    while i < members.len()
        invariant
            i <= members@.len(),
            members@.len() == items_of(*json).len(),
            forall|j: int| 0 <= j < members@.len() ==> *members@[j] == items_of(*json)[j],
            mods@.len() == i,
            forall|j: int| 0 <= j < i ==> counts_downloads(#[trigger] items_of(*json)[j]),
            forall|j: int| 0 <= j < i ==> mod_shows(#[trigger] mods@[j], items_of(*json)[j]),
        decreases members@.len() - i,
    {
        match parse_json_into_mod(members[i]) {
            Some(m) => mods.push(m),
            None => {
                assert(!counts_downloads(items_of(*json)[i as int]));
                return None;
            },
        }
        i = i + 1;
    }
    Some(mods)
}

/// Turns the results that the portal gives for a modder into what is known
/// of the modder. Nothing where there are no results, where one of them
/// gives no number of downloads, or where the downloads together do not fit
/// 64 bits.
pub fn parse_json_into_modder(username: &str, json: &JsonValue) -> (r: Option<Modder>)
    ensures
        r is Some <==> items_of(*json).len() > 0 && all_count_downloads(*json) && counted_downloads(
            *json,
            items_of(*json).len() as int,
        ) <= u64::MAX,
        r matches Some(m) ==> exists|mods: Seq<Mod>| #[trigger]
            mods_show(mods, *json) && modder_shows(m, username@, mods),
{
    match read_mods(json) {
        Some(mods) => {
            proof {
                lemma_counted_downloads(mods@, *json, mods@.len() as int);
            }
            Modder::from_mods(username, &mods)
        },
        None => None,
    }
}

} // verus!
