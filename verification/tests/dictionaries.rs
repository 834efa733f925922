use wikibot::dictionary::{Dictionary, DictionaryEntry, LookupResult, StoreError, DISTANCE_SENSITIVITY};
use wikibot::store::{
    delete, delete_all, deserialize, entry_from_texts, file_name, from_document, insert, load,
    resolve, serialize, to_document, upsert, LoadStatus, Purpose,
};

fn entry(body: &str) -> DictionaryEntry {
    DictionaryEntry { body: body.to_string(), attachment: None }
}

fn entry_with(body: &str, attachment: &str) -> DictionaryEntry {
    DictionaryEntry { body: body.to_string(), attachment: Some(attachment.to_string()) }
}

fn sample() -> Dictionary {
    let mut d = Dictionary::new();
    assert_eq!(d.insert("steam", entry("Steam is used for power.")), Ok(()));
    assert_eq!(d.insert("belts", entry_with("Belts move items.", "http://x/belt.png")), Ok(()));
    assert_eq!(d.insert("trains", entry("Trains haul far.")), Ok(()));
    d
}

#[test]
fn insert_then_lookup_is_exact() {
    let mut d = Dictionary::new();
    let v = entry_with("Steam is used for power.", "http://x/steam.png");
    assert_eq!(d.insert("steam", v.clone()), Ok(()));
    assert_eq!(d.lookup("steam", DISTANCE_SENSITIVITY), LookupResult::ExactEntry(v.clone()));
    assert_eq!(d.lookup("steam", 0), LookupResult::ExactEntry(v));
}

#[test]
fn second_insert_under_the_same_key_is_refused() {
    let mut d = Dictionary::new();
    assert_eq!(d.insert("steam", entry("first")), Ok(()));
    assert_eq!(d.insert("steam", entry("second")), Err(StoreError::KeyAlreadyExists));
    assert_eq!(d.lookup("steam", 4), LookupResult::ExactEntry(entry("first")));
    assert_eq!(d.len(), 1);
}

#[test]
fn upsert_of_a_missing_key_is_refused() {
    let mut d = sample();
    assert_eq!(d.upsert("pipes", entry("Pipes carry fluids.")), Err(StoreError::KeyNotFound));
    assert_eq!(d.len(), 3);
    assert!(!d.contains_key("pipes"));
}

#[test]
fn upsert_replaces_the_entry_in_place() {
    let mut d = sample();
    assert_eq!(d.upsert("belts", entry("Belts are fast.")), Ok(()));
    assert_eq!(d.keys(), vec!["steam", "belts", "trains"]);
    assert_eq!(d.lookup("belts", 4), LookupResult::ExactEntry(entry("Belts are fast.")));
}

#[test]
fn delete_removes_one_key_and_keeps_the_order() {
    let mut d = sample();
    assert_eq!(d.delete("belts"), Ok(()));
    assert_eq!(d.keys(), vec!["steam", "trains"]);
    assert_eq!(d.delete("belts"), Err(StoreError::KeyNotFound));
    assert_eq!(d.key_at(1), "trains");
    assert_eq!(d.entry_at(0), &entry("Steam is used for power."));
}

#[test]
fn delete_all_then_lookup_is_empty() {
    let mut d = sample();
    d.delete_all();
    assert!(d.is_empty());
    for request in ["steam", "", "anything at all"].iter() {
        assert_eq!(d.lookup(request, DISTANCE_SENSITIVITY), LookupResult::Empty);
    }
}

#[test]
fn lookup_tells_empty_from_not_found() {
    let d = sample();
    assert_eq!(d.lookup("zzzzzzzzzzzz", 4), LookupResult::NotFound);
    assert_eq!(Dictionary::new().lookup("zzzzzzzzzzzz", 4), LookupResult::Empty);
}

#[test]
fn lookup_is_fuzzy_within_the_threshold() {
    let d = sample();
    assert_eq!(
        d.lookup("steem", 4),
        LookupResult::FuzzyEntry("steam".to_string(), entry("Steam is used for power."), 1)
    );
    assert_eq!(d.lookup("steem", 0), LookupResult::NotFound);
}

#[test]
fn lookup_tie_goes_to_the_key_added_first() {
    let mut d = Dictionary::new();
    assert_eq!(d.insert("cat", entry("c")), Ok(()));
    assert_eq!(d.insert("bat", entry("b")), Ok(()));
    assert_eq!(d.lookup("rat", 4), LookupResult::FuzzyEntry("cat".to_string(), entry("c"), 1));
}

#[test]
fn from_parts_wants_unique_keys_and_whole_entries() {
    let keys = vec!["a".to_string(), "b".to_string()];
    let d = Dictionary::from_parts(&keys, &vec![Some(entry("x")), Some(entry("y"))]).unwrap();
    assert_eq!(d.keys(), vec!["a", "b"]);
    assert!(Dictionary::from_parts(&keys, &vec![Some(entry("x")), None]).is_none());
    assert!(Dictionary::from_parts(&keys, &vec![Some(entry("x"))]).is_none());
    let twice = vec!["a".to_string(), "a".to_string()];
    assert!(Dictionary::from_parts(&twice, &vec![Some(entry("x")), Some(entry("y"))]).is_none());
}

#[test]
fn entries_have_one_of_three_shapes() {
    let s = |t: &str| Some(t.to_string());
    assert_eq!(entry_from_texts(s("body"), vec![]), Some(entry("body")));
    assert_eq!(entry_from_texts(None, vec![s("body")]), Some(entry("body")));
    assert_eq!(entry_from_texts(None, vec![s("body"), s("url")]), Some(entry_with("body", "url")));
    assert_eq!(entry_from_texts(None, vec![]), None);
    assert_eq!(entry_from_texts(None, vec![None]), None);
    assert_eq!(entry_from_texts(None, vec![s("a"), None]), None);
    assert_eq!(entry_from_texts(None, vec![s("a"), s("b"), s("c")]), None);
}

#[test]
fn file_names_carry_partition_and_purpose() {
    assert_eq!(file_name(0, Purpose::Faqs), "0-faqs.json");
    assert_eq!(file_name(222222222222222222, Purpose::Ratios), "222222222222222222-ratios.json");
    assert_eq!(file_name(u64::MAX, Purpose::Faqs), "18446744073709551615-faqs.json");
}

#[test]
fn written_dictionary_reads_back_unchanged() {
    let d = sample();
    for purpose in [Purpose::Faqs, Purpose::Ratios].iter() {
        let text = serialize(&d, *purpose);
        let back = deserialize(&text).unwrap();
        assert_eq!(back.keys(), d.keys());
        for i in 0..d.len() {
            assert_eq!(back.entry_at(i), d.entry_at(i));
        }
        let (loaded, status) = load(Some(&text));
        assert_eq!(status, LoadStatus::Loaded);
        assert_eq!(loaded.keys(), d.keys());
    }
}

#[test]
fn document_round_trip_keeps_keys_and_entries() {
    let d = sample();
    let doc = to_document(&d, Purpose::Faqs);
    assert_eq!(doc.len(), 3);
    assert_eq!(doc["belts"][1], "http://x/belt.png");
    let back = from_document(&doc).unwrap();
    assert_eq!(back.keys(), d.keys());
    assert_eq!(back.entry_at(1), d.entry_at(1));
}

#[test]
fn faqs_are_written_as_lists_and_ratios_as_texts() {
    let mut d = Dictionary::new();
    assert_eq!(d.insert("steam", entry("power")), Ok(()));
    assert_eq!(serialize(&d, Purpose::Faqs), "{\"steam\":[\"power\"]}");
    assert_eq!(serialize(&d, Purpose::Ratios), "{\"steam\":\"power\"}");
    assert_eq!(serialize(&Dictionary::new(), Purpose::Faqs), "{}");
}

#[test]
fn load_degrades_to_empty() {
    let (d, status) = load(None);
    assert!(d.is_empty());
    assert_eq!(status, LoadStatus::Absent);
    let (d, status) = load(Some("{ this is no json"));
    assert!(d.is_empty());
    assert_eq!(status, LoadStatus::Unreadable);
    let (d, status) = load(Some("{\"steam\": 5}"));
    assert!(d.is_empty());
    assert_eq!(status, LoadStatus::Unreadable);
    let (d, status) = load(Some("{\"steam\": [\"a\", \"b\", \"c\"]}"));
    assert!(d.is_empty());
    assert_eq!(status, LoadStatus::Unreadable);
    let (d, status) = load(Some("  {}\n"));
    assert!(d.is_empty());
    assert_eq!(status, LoadStatus::Loaded);
    let (d, status) = load(Some("[1, 2]"));
    assert!(d.is_empty());
    assert_eq!(status, LoadStatus::Loaded);
}

#[test]
fn load_reads_both_shapes() {
    let (d, status) = load(Some("{\"a\": \"one\", \"b\": [\"two\"], \"c\": [\"three\", \"url\"]}\n"));
    assert_eq!(status, LoadStatus::Loaded);
    assert_eq!(d.keys(), vec!["a", "b", "c"]);
    assert_eq!(d.entry_at(0), &entry("one"));
    assert_eq!(d.entry_at(1), &entry("two"));
    assert_eq!(d.entry_at(2), &entry_with("three", "url"));
}

#[test]
fn faq_scenario_fuzzy_no_match_and_empty() {
    let g1 = "{\"steam\": [\"Steam is used for power.\"]}";
    assert_eq!(
        resolve(Some(g1), "steem"),
        LookupResult::FuzzyEntry("steam".to_string(), entry("Steam is used for power."), 1)
    );
    assert_eq!(resolve(Some(g1), "xyz"), LookupResult::NotFound);
    assert_eq!(resolve(Some(g1), "steam"), LookupResult::ExactEntry(entry("Steam is used for power.")));
    assert_eq!(resolve(None, "steam"), LookupResult::Empty);
    assert_eq!(resolve(Some("{}"), "steam"), LookupResult::Empty);
}

#[test]
fn requests_and_keys_are_trimmed_and_lowered() {
    let change = insert(None, Purpose::Faqs, "  Steam Engine ", entry("power"));
    assert_eq!(change.result, Ok(()));
    let text = change.write.unwrap();
    assert_eq!(text, "{\"steam engine\":[\"power\"]}");
    assert_eq!(resolve(Some(&text), "STEAM ENGINE\n"), LookupResult::ExactEntry(entry("power")));
}

#[test]
fn store_insert_then_resolve_is_exact() {
    let v = entry_with("Belts move items.", "http://x/belt.png");
    let change = insert(Some("{\"steam\":[\"power\"]}"), Purpose::Faqs, "belts", v.clone());
    assert_eq!(change.result, Ok(()));
    let text = change.write.unwrap();
    assert_eq!(resolve(Some(&text), "belts"), LookupResult::ExactEntry(v));
    assert_eq!(resolve(Some(&text), "steam"), LookupResult::ExactEntry(entry("power")));
}

#[test]
fn store_refusals_write_nothing() {
    let stored = "{\"steam\":[\"power\"]}";
    let change = insert(Some(stored), Purpose::Faqs, "Steam", entry("again"));
    assert_eq!(change.result, Err(StoreError::KeyAlreadyExists));
    assert_eq!(change.write, None);
    let change = upsert(Some(stored), Purpose::Faqs, "belts", entry("b"));
    assert_eq!(change.result, Err(StoreError::KeyNotFound));
    assert_eq!(change.write, None);
    let change = delete(Some(stored), Purpose::Faqs, "belts");
    assert_eq!(change.result, Err(StoreError::KeyNotFound));
    assert_eq!(change.write, None);
}

#[test]
fn store_upsert_and_delete_write_the_whole_dictionary() {
    let stored = "{\"steam\":[\"power\"],\"belts\":[\"move\"]}";
    let change = upsert(Some(stored), Purpose::Faqs, "steam", entry_with("hot", "u"));
    assert_eq!(change.result, Ok(()));
    assert_eq!(change.write.unwrap(), "{\"steam\":[\"hot\",\"u\"],\"belts\":[\"move\"]}");
    let change = delete(Some(stored), Purpose::Faqs, "steam");
    assert_eq!(change.result, Ok(()));
    assert_eq!(change.write.unwrap(), "{\"belts\":[\"move\"]}");
}

#[test]
fn store_delete_all_then_resolve_is_empty() {
    let change = delete_all(Purpose::Ratios);
    assert_eq!(change.result, Ok(()));
    let text = change.write.unwrap();
    assert_eq!(text, "{}");
    assert_eq!(resolve(Some(&text), "anything"), LookupResult::Empty);
}

#[test]
fn get_uses_the_fixed_sensitivity() {
    let d = sample();
    assert_eq!(DISTANCE_SENSITIVITY, 4);
    assert_eq!(d.get("steam"), LookupResult::ExactEntry(entry("Steam is used for power.")));
    assert_eq!(
        d.get("stea"),
        LookupResult::FuzzyEntry("steam".to_string(), entry("Steam is used for power."), 1)
    );
    assert_eq!(
        d.get("s"),
        LookupResult::FuzzyEntry("steam".to_string(), entry("Steam is used for power."), 4)
    );
    assert_eq!(d.get("x234567890"), LookupResult::NotFound);
}

#[test]
fn suggestions_are_the_near_keys_in_order() {
    let d = sample();
    assert_eq!(d.suggestions("steam", 0), vec!["steam"]);
    assert_eq!(d.suggestions("seams", 4), vec!["steam", "belts", "trains"]);
    assert_eq!(d.suggestions("seams", 3), vec!["steam", "belts"]);
    assert_eq!(d.suggestions("trainz", 4), vec!["trains"]);
    assert_eq!(d.suggestions("trainz", 0), Vec::<String>::new());
    assert!(d.suggestions("a very long request indeed", 4).is_empty());
    assert!(Dictionary::new().suggestions("steam", 4).is_empty());
}

#[test]
fn duplicate_of_an_entry_is_equal() {
    let e = entry_with("body", "url");
    assert_eq!(e.duplicate(), e);
}

fn zeros(count: usize) -> String {
    "0".repeat(count)
}

#[test]
fn load_refuses_a_number_with_too_many_digits() {
    let long = format!("{{\"steam\": [\"power\"], \"x\": 0.{}}}", zeros(32769));
    let (d, status) = load(Some(&long));
    assert!(d.is_empty());
    assert_eq!(status, LoadStatus::Unreadable);
    assert_eq!(resolve(Some(&long), "steam"), LookupResult::Empty);
    let very_long = format!("[0.{}]", zeros(200000));
    assert_eq!(load(Some(&very_long)).1, LoadStatus::Unreadable);
    let digits_in_a_text = format!("{{\"steam\": [\"{}\"]}}", zeros(32769));
    assert_eq!(load(Some(&digits_in_a_text)).1, LoadStatus::Unreadable);
}

#[test]
fn load_reads_the_longest_run_of_digits_that_is_admitted() {
    let text = format!("{{\"steam\": [\"{}\"]}}", zeros(32768));
    let (d, status) = load(Some(&text));
    assert_eq!(status, LoadStatus::Loaded);
    assert_eq!(d.entry_at(0).body.len(), 32768);
    let number = format!("[0.{}]", zeros(32768));
    assert_eq!(load(Some(&number)).1, LoadStatus::Loaded);
}
