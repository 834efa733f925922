//! Resolution of the single closest entry in a list of candidates.

use crate::distance::{lemma_lev_zero_iff_equal, lev, levenshtein};
use vstd::prelude::*;

verus! {

/// An entry that a query can resolve to: the key it is filed under and the
/// text that the query is measured against (the key itself, or a display
/// name).
#[derive(Debug, Clone, PartialEq, Eq)]
pub struct Candidate {
    pub key: String,
    pub text: String,
}

/// The outcome of resolving a query against a list of candidates.
#[derive(Debug, Clone, PartialEq, Eq)]
pub enum Match {
    /// A candidate at distance zero, by its key.
    ExactMatch(String),
    /// The nearest candidate, by its key, and its distance, which is
    /// positive and within the threshold.
    FuzzyMatch(String, usize),
    /// No candidate at all, or none within the threshold.
    NoMatch,
}

/// What a `Match` holds, as mathematical values.
pub ghost enum MatchView {
    ExactMatch(Seq<char>),
    FuzzyMatch(Seq<char>, nat),
    NoMatch,
}

impl View for Match {
    type V = MatchView;

    open spec fn view(&self) -> MatchView {
        match self {
            Match::ExactMatch(key) => MatchView::ExactMatch(key@),
            Match::FuzzyMatch(key, d) => MatchView::FuzzyMatch(key@, *d as nat),
            Match::NoMatch => MatchView::NoMatch,
        }
    }
}

/// The keys of a list of candidates, in order.
pub open spec fn candidate_keys(candidates: Seq<Candidate>) -> Seq<Seq<char>> {
    Seq::new(candidates.len(), |i: int| candidates[i].key@)
}

/// The measured texts of a list of candidates, in order.
pub open spec fn candidate_texts(candidates: Seq<Candidate>) -> Seq<Seq<char>> {
    Seq::new(candidates.len(), |i: int| candidates[i].text@)
}

/// The texts that a slice of strings stands for, in order.
pub open spec fn str_texts(list: Seq<&str>) -> Seq<Seq<char>> {
    Seq::new(list.len(), |i: int| list[i]@)
}

/// The position of the text nearest to `query`: among the texts at the
/// least distance, the first. Zero for an empty list.
pub open spec fn closest_index(texts: Seq<Seq<char>>, query: Seq<char>) -> int
    decreases texts.len(),
{
    if texts.len() <= 1 {
        0
    } else {
        let r = closest_index(texts.drop_last(), query);
        if lev(texts.last(), query) < lev(texts[r], query) {
            texts.len() - 1
        } else {
            r
        }
    }
}

/// The outcome that `closest` owes: nothing for an empty list; otherwise the
/// first candidate at the least distance, exact at distance zero, fuzzy up
/// to the threshold, and nothing beyond it.
pub open spec fn closest_spec(
    keys: Seq<Seq<char>>,
    texts: Seq<Seq<char>>,
    query: Seq<char>,
    threshold: nat,
) -> MatchView {
    if texts.len() == 0 {
        MatchView::NoMatch
    } else {
        let i = closest_index(texts, query);
        let d = lev(texts[i], query);
        if d == 0 {
            MatchView::ExactMatch(keys[i])
        } else if d > threshold {
            MatchView::NoMatch
        } else {
            MatchView::FuzzyMatch(keys[i], d)
        }
    }
}

/// `closest_index` names a position of the list, no text is nearer to the
/// query than the one there, and every text before it is strictly farther.
pub proof fn lemma_closest_index_first_least(texts: Seq<Seq<char>>, query: Seq<char>)
    requires
        texts.len() > 0,
    ensures
        0 <= closest_index(texts, query) < texts.len(),
        forall|j: int|
            0 <= j < texts.len() ==> lev(texts[closest_index(texts, query)], query) <= lev(
                #[trigger] texts[j],
                query,
            ),
        forall|j: int|
            0 <= j < closest_index(texts, query) ==> lev(
                texts[closest_index(texts, query)],
                query,
            ) < lev(#[trigger] texts[j], query),
    decreases texts.len(),
{
    if texts.len() > 1 {
        let front = texts.drop_last();
        lemma_closest_index_first_least(front, query);
        let r = closest_index(front, query);
        assert forall|j: int| 0 <= j < texts.len() implies lev(
            texts[closest_index(texts, query)],
            query,
        ) <= lev(#[trigger] texts[j], query) by {
            if j < front.len() {
                assert(front[j] == texts[j]);
            }
        }
        assert forall|j: int| 0 <= j < closest_index(texts, query) implies lev(
            texts[closest_index(texts, query)],
            query,
        ) < lev(#[trigger] texts[j], query) by {
            assert(front[j] == texts[j]);
        }
    }
}

/// A position that holds the first least distance is the one that
/// `closest_index` names.
pub proof fn lemma_closest_index_unique(texts: Seq<Seq<char>>, query: Seq<char>, i: int)
    requires
        0 <= i < texts.len(),
        forall|j: int| 0 <= j < texts.len() ==> lev(texts[i], query) <= lev(#[trigger] texts[j], query),
        forall|j: int| 0 <= j < i ==> lev(texts[i], query) < lev(#[trigger] texts[j], query),
    ensures
        closest_index(texts, query) == i,
{
    lemma_closest_index_first_least(texts, query);
    let r = closest_index(texts, query);
    if r < i {
        assert(lev(texts[i], query) < lev(texts[r], query));
        assert(lev(texts[r], query) <= lev(texts[i], query));
    } else if i < r {
        assert(lev(texts[r], query) < lev(texts[i], query));
        assert(lev(texts[i], query) <= lev(texts[r], query));
    }
}

/// A list of one candidate whose text is the query resolves to that
/// candidate, exactly, whatever the threshold.
pub proof fn lemma_closest_of_itself(key: Seq<char>, s: Seq<char>, threshold: nat)
    ensures
        closest_spec(seq![key], seq![s], s, threshold) == MatchView::ExactMatch(key),
{
    lemma_lev_zero_iff_equal(s, s);
    assert(closest_index(seq![s], s) == 0);
}

/// Whether the text at place `i` is the first nearest to the query, at
/// distance `d`: no text is nearer, and every text before it is farther.
pub open spec fn first_nearest_at(texts: Seq<Seq<char>>, query: Seq<char>, i: int, d: nat) -> bool {
    &&& 0 <= i < texts.len()
    &&& d == lev(texts[i], query)
    &&& forall|j: int| 0 <= j < texts.len() ==> d <= lev(#[trigger] texts[j], query)
    &&& forall|j: int| 0 <= j < i ==> d < lev(#[trigger] texts[j], query)
}

/// What each outcome of `closest_spec` means. An exact match names the
/// first candidate whose text is the query. A fuzzy match names the first
/// nearest candidate, whose distance is positive and within the threshold.
/// No match says that no candidate is within the threshold.
pub proof fn lemma_closest_meaning(
    keys: Seq<Seq<char>>,
    texts: Seq<Seq<char>>,
    query: Seq<char>,
    threshold: nat,
)
    requires
        keys.len() == texts.len(),
    ensures
        match closest_spec(keys, texts, query, threshold) {
            MatchView::ExactMatch(key) => exists|i: int|
                #[trigger] first_nearest_at(texts, query, i, 0) && key == keys[i] && texts[i]
                    == query,
            MatchView::FuzzyMatch(key, d) => 0 < d <= threshold && exists|i: int|
                #[trigger] first_nearest_at(texts, query, i, d) && key == keys[i],
            MatchView::NoMatch => forall|j: int|
                0 <= j < texts.len() ==> threshold < lev(#[trigger] texts[j], query),
        },
{
    if texts.len() > 0 {
        lemma_closest_index_first_least(texts, query);
        let i = closest_index(texts, query);
        let d = lev(texts[i], query);
        lemma_lev_zero_iff_equal(texts[i], query);
        assert(first_nearest_at(texts, query, i, d));
    }
}

/// There is an exact match exactly if the text of some candidate is the
/// query itself.
pub proof fn lemma_exact_means_equal(
    keys: Seq<Seq<char>>,
    texts: Seq<Seq<char>>,
    query: Seq<char>,
    threshold: nat,
)
    requires
        keys.len() == texts.len(),
    ensures
        closest_spec(keys, texts, query, threshold) is ExactMatch <==> exists|i: int|
            0 <= i < texts.len() && #[trigger] texts[i] == query,
{
    if texts.len() > 0 {
        lemma_closest_index_first_least(texts, query);
        let r = closest_index(texts, query);
        lemma_lev_zero_iff_equal(texts[r], query);
        if exists|i: int| 0 <= i < texts.len() && #[trigger] texts[i] == query {
            let i = choose|i: int| 0 <= i < texts.len() && #[trigger] texts[i] == query;
            lemma_lev_zero_iff_equal(texts[i], query);
        }
    }
}

/// The position and distance of the first nearest of `texts`, given the
/// distance of each.
fn first_least(dists: &Vec<usize>, Ghost(texts): Ghost<Seq<Seq<char>>>, Ghost(query): Ghost<Seq<char>>)
    -> (r: (usize, usize))
    requires
        dists@.len() == texts.len(),
        texts.len() > 0,
        forall|j: int| 0 <= j < texts.len() ==> dists@[j] == lev(#[trigger] texts[j], query),
    ensures
        r.0 == closest_index(texts, query),
        r.0 < texts.len(),
        r.1 == lev(texts[r.0 as int], query),
{
    let mut best: usize = 0;
    let mut best_d: usize = dists[0];
    let mut i: usize = 1;
    proof {
        assert(texts.take(1).len() == 1);
    }
    while i < dists.len()
        invariant
            1 <= i <= dists@.len(),
            dists@.len() == texts.len(),
            forall|j: int| 0 <= j < texts.len() ==> dists@[j] == lev(#[trigger] texts[j], query),
            best < i,
            best == closest_index(texts.take(i as int), query),
            best_d == lev(texts[best as int], query),
        decreases dists@.len() - i,
    {
        proof {
            let next = texts.take(i + 1);
            assert(next.drop_last() =~= texts.take(i as int));
            assert(next.last() == texts[i as int]);
            assert(next[best as int] == texts[best as int]);
        }
        if dists[i] < best_d {
            best = i;
            best_d = dists[i];
        }
        i = i + 1;
    }
    proof {
        assert(texts.take(i as int) =~= texts);
    }
    (best, best_d)
}

/// The place and the distance of the first nearest of `candidates`, or
/// nothing for an empty list.
pub fn nearest(candidates: &Vec<Candidate>, query: &str) -> (r: Option<(usize, usize)>)
    ensures
        match r {
            None => candidates@.len() == 0,
            Some((i, d)) => {
                &&& i < candidates@.len()
                &&& i == closest_index(candidate_texts(candidates@), query@)
                &&& d == lev(candidates@[i as int].text@, query@)
            },
        },
{
    if candidates.len() == 0 {
        return None;
    }
    let ghost texts = candidate_texts(candidates@);
    let mut dists: Vec<usize> = Vec::new();
    let mut i: usize = 0;
    while i < candidates.len()
        invariant
            i <= candidates@.len(),
            texts == candidate_texts(candidates@),
            dists@.len() == i,
            forall|j: int| 0 <= j < i ==> dists@[j] == lev(#[trigger] texts[j], query@),
        decreases candidates@.len() - i,
    {
        let d = levenshtein(candidates[i].text.as_str(), query);
        dists.push(d);
        i = i + 1;
    }
    Some(first_least(&dists, Ghost(texts), Ghost(query@)))
}

/// Resolves `query` to the single closest of `candidates`.
///
/// The distance is the Levenshtein distance between the query and each
/// candidate's text. The winner is the first candidate, in the order of the
/// list, at the least distance: among equally near candidates the earlier
/// one wins. At distance zero the match is exact; otherwise it is fuzzy if
/// the distance does not exceed `threshold`, and there is no match if it
/// does, or if the list is empty.
pub fn closest(candidates: &Vec<Candidate>, query: &str, threshold: usize) -> (m: Match)
    ensures
        m@ == closest_spec(
            candidate_keys(candidates@),
            candidate_texts(candidates@),
            query@,
            threshold as nat,
        ),
{
    match nearest(candidates, query) {
        None => Match::NoMatch,
        Some((best, d)) => {
            if d == 0 {
                Match::ExactMatch(candidates[best].key.clone())
            } else if d > threshold {
                Match::NoMatch
            } else {
                Match::FuzzyMatch(candidates[best].key.clone(), d)
            }
        },
    }
}

/// Whether a candidate is near a query: its key or its text is within the
/// threshold.
pub open spec fn near(candidate: Candidate, query: Seq<char>, threshold: nat) -> bool {
    lev(candidate.key@, query) <= threshold || lev(candidate.text@, query) <= threshold
}

/// The place of the first candidate whose key or text is within
/// `threshold` of the query, if there is one.
pub fn first_within(candidates: &Vec<Candidate>, query: &str, threshold: usize) -> (r: Option<
    usize,
>)
    ensures
        match r {
            Some(i) => {
                &&& i < candidates@.len()
                &&& near(candidates@[i as int], query@, threshold as nat)
                &&& forall|j: int| 0 <= j < i ==> !near(#[trigger] candidates@[j], query@, threshold as nat)
            },
            None => forall|j: int|
                0 <= j < candidates@.len() ==> !near(
                    #[trigger] candidates@[j],
                    query@,
                    threshold as nat,
                ),
        },
{
    let mut i: usize = 0;
    while i < candidates.len()
        invariant
            i <= candidates@.len(),
            forall|j: int| 0 <= j < i ==> !near(#[trigger] candidates@[j], query@, threshold as nat),
        decreases candidates@.len() - i,
    {
        if levenshtein(candidates[i].key.as_str(), query) <= threshold || levenshtein(
            candidates[i].text.as_str(),
            query,
        ) <= threshold {
            return Some(i);
        }
        i = i + 1;
    }
    None
}

/// The entry of `list` nearest to `request`, after its distance.
///
/// Among entries at the same least distance the first one in `list` wins.
/// An empty list has no nearest entry: the answer is then the empty text,
/// at a distance that exceeds every threshold.
pub fn get_closest_match<'a>(list: &[&'a str], request: &'a str) -> (r: (usize, &'a str))
    ensures
        list@.len() == 0 ==> r.0 == usize::MAX && r.1@.len() == 0,
        list@.len() > 0 ==> {
            &&& 0 <= closest_index(str_texts(list@), request@) < list@.len()
            &&& r.0 == lev(list@[closest_index(str_texts(list@), request@)]@, request@)
            &&& r.1@ == list@[closest_index(str_texts(list@), request@)]@
        },
{
    if list.len() == 0 {
        proof {
            reveal_strlit("");
        }
        return (usize::MAX, "");
    }
    let ghost texts = str_texts(list@);
    let mut dists: Vec<usize> = Vec::new();
    let mut i: usize = 0;
    while i < list.len()
        invariant
            i <= list@.len(),
            texts == str_texts(list@),
            dists@.len() == i,
            forall|j: int| 0 <= j < i ==> dists@[j] == lev(#[trigger] texts[j], request@),
        decreases list@.len() - i,
    {
        let d = levenshtein(list[i], request);
        dists.push(d);
        i = i + 1;
    }
    let (best, d) = first_least(&dists, Ghost(texts), Ghost(request@));
    (d, list[best])
}

} // verus!
