use wikibot::distance::levenshtein;
use wikibot::matcher::{closest, get_closest_match, Candidate, Match};

fn keyed(keys: &[&str]) -> Vec<Candidate> {
    keys.iter()
        .map(|k| Candidate { key: k.to_string(), text: k.to_string() })
        .collect()
}

#[test]
fn closest_match_with_exact() {
    let request = "beacon";
    let list = vec!["wiki", "beacon", "twelve", "blah", "test"];
    let (dist, closest_match) = get_closest_match(&list, request);
    assert_eq!(closest_match, "beacon");
    assert_eq!(dist, 0);
}

#[test]
fn closest_match_with_slightly_incorrect() {
    let request = "baecon";
    let list = vec!["wiki", "beacon", "twelve", "blah", "test"];
    let (dist, closest_match) = get_closest_match(&list, request);
    assert_eq!(closest_match, "beacon");
    assert_eq!(dist, 2);
}

#[test]
fn distance_of_equal_strings_is_zero() {
    assert_eq!(levenshtein("beacon", "beacon"), 0);
    assert_eq!(levenshtein("", ""), 0);
}

#[test]
fn distance_of_a_transposition_is_two() {
    assert_eq!(levenshtein("beacon", "baecon"), 2);
}

#[test]
fn distance_known_values() {
    assert_eq!(levenshtein("kitten", "sitting"), 3);
    assert_eq!(levenshtein("", "abc"), 3);
    assert_eq!(levenshtein("abc", ""), 3);
    assert_eq!(levenshtein("flaw", "lawn"), 2);
    assert_eq!(levenshtein("steam", "steem"), 1);
}

#[test]
fn distance_counts_characters_not_bytes() {
    assert_eq!(levenshtein("caf\u{e9}", "cafe"), 1);
    assert_eq!(levenshtein("\u{e9}", ""), 1);
}

#[test]
fn distance_is_symmetric_on_samples() {
    let words = ["", "a", "steam", "steem", "beacon", "baecon", "wiki", "twelve"];
    for a in words.iter() {
        for b in words.iter() {
            assert_eq!(levenshtein(a, b), levenshtein(b, a));
        }
    }
}

#[test]
fn closest_of_a_string_with_itself_is_exact() {
    for s in ["", "steam", "Iron gear wheel"].iter() {
        for threshold in [0usize, 1, 4, 100].iter() {
            assert_eq!(
                closest(&keyed(&[s]), s, *threshold),
                Match::ExactMatch(s.to_string())
            );
        }
    }
}

#[test]
fn closest_on_empty_list_is_no_match() {
    assert_eq!(closest(&Vec::new(), "steam", 4), Match::NoMatch);
}

#[test]
fn closest_fuzzy_within_threshold() {
    let list = keyed(&["steam"]);
    assert_eq!(closest(&list, "steem", 4), Match::FuzzyMatch("steam".to_string(), 1));
    assert_eq!(closest(&list, "steem", 1), Match::FuzzyMatch("steam".to_string(), 1));
}

#[test]
fn closest_beyond_threshold_is_no_match() {
    let list = keyed(&["steam"]);
    assert_eq!(closest(&list, "steem", 0), Match::NoMatch);
    assert_eq!(closest(&keyed(&["steamengine"]), "xyz", 4), Match::NoMatch);
}

#[test]
fn closest_tie_goes_to_the_first_candidate() {
    let list = keyed(&["cat", "bat", "hat"]);
    assert_eq!(closest(&list, "rat", 4), Match::FuzzyMatch("cat".to_string(), 1));
    let reversed = keyed(&["hat", "bat", "cat"]);
    assert_eq!(closest(&reversed, "rat", 4), Match::FuzzyMatch("hat".to_string(), 1));
}

#[test]
fn closest_exact_wins_over_earlier_near_candidates() {
    let list = keyed(&["bat", "cat", "rat"]);
    assert_eq!(closest(&list, "rat", 4), Match::ExactMatch("rat".to_string()));
}

#[test]
fn closest_measures_the_text_and_returns_the_key() {
    let list = vec![
        Candidate { key: "iron-gear-wheel".to_string(), text: "Iron gear wheel".to_string() },
        Candidate { key: "copper-plate".to_string(), text: "Copper plate".to_string() },
    ];
    assert_eq!(closest(&list, "Copper plate", 4), Match::ExactMatch("copper-plate".to_string()));
    assert_eq!(
        closest(&list, "Coper plate", 4),
        Match::FuzzyMatch("copper-plate".to_string(), 1)
    );
}

#[test]
fn closest_match_tie_goes_to_the_first_entry() {
    let list = vec!["cat", "bat"];
    let (dist, closest_match) = get_closest_match(&list, "rat");
    assert_eq!(closest_match, "cat");
    assert_eq!(dist, 1);
}

fn reference_distance(a: &str, b: &str) -> usize {
    let a: Vec<char> = a.chars().collect();
    let b: Vec<char> = b.chars().collect();
    let mut table = vec![vec![0usize; b.len() + 1]; a.len() + 1];
    for i in 0..=a.len() {
        table[i][0] = i;
    }
    for j in 0..=b.len() {
        table[0][j] = j;
    }
    for i in 1..=a.len() {
        for j in 1..=b.len() {
            let cost = if a[i - 1] == b[j - 1] { 0 } else { 1 };
            table[i][j] = (table[i - 1][j] + 1)
                .min(table[i][j - 1] + 1)
                .min(table[i - 1][j - 1] + cost);
        }
    }
    table[a.len()][b.len()]
}

#[test]
fn distance_agrees_with_the_full_table() {
    let words = [
        "", "a", "ab", "ba", "abc", "steam", "steem", "team", "beacon", "baecon", "bacon",
        "iron plate", "iron-plate", "Iron gear wheel", "copper", "\u{e9}t\u{e9}", "ete",
    ];
    for a in words.iter() {
        for b in words.iter() {
            assert_eq!(levenshtein(a, b), reference_distance(a, b), "{:?} {:?}", a, b);
        }
    }
}

#[test]
fn closest_is_the_first_of_the_nearest() {
    let keys = ["wiki", "beacon", "twelve", "blah", "test", "bacon", "deacon"];
    let list = keyed(&keys);
    for query in ["beacon", "baecon", "b", "", "tesT", "zzzzzzzzzzzz", "eacon"].iter() {
        for threshold in [0usize, 1, 2, 4, 20].iter() {
            let mut best: Option<(usize, usize)> = None;
            for (i, key) in keys.iter().enumerate() {
                let d = reference_distance(key, query);
                if best.map_or(true, |(_, least)| d < least) {
                    best = Some((i, d));
                }
            }
            let (at, d) = best.unwrap();
            let expected = if d == 0 {
                Match::ExactMatch(keys[at].to_string())
            } else if d > *threshold {
                Match::NoMatch
            } else {
                Match::FuzzyMatch(keys[at].to_string(), d)
            };
            assert_eq!(closest(&list, query, *threshold), expected);
        }
    }
}

#[test]
fn closest_match_in_an_empty_list_is_beyond_every_threshold() {
    let list: Vec<&str> = Vec::new();
    let (dist, closest_match) = get_closest_match(&list, "steam");
    assert_eq!(dist, usize::MAX);
    assert_eq!(closest_match, "");
    assert!(dist > 4);
}
