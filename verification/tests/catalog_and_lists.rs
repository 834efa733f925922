use json::JsonValue;
use wikibot::catalog::{CatalogRecord, Ingredient, StaticCatalog};
use wikibot::lists::{comma_list, jsonvalue_as_comma_list, keys_as_comma_list};
use wikibot::matcher::Match;
use wikibot::store::Purpose;

const RECIPES: &str = "{
    \"copper-plate\": {\"wiki-name\": \"Copper plate\", \"energy-required\": 3.5,
        \"inputs\": {\"copper-ore\": 1}, \"outputs\": {\"copper-plate\": 1}},
    \"iron-gear-wheel\": {\"wiki-name\": \"Iron gear wheel\", \"energy-required\": 1,
        \"inputs\": {\"iron-plate\": 2}, \"outputs\": {\"iron-gear-wheel\": 1}},
    \"copper-ore\": {\"energy-required\": 0, \"inputs\": {}, \"outputs\": {}}
}";

fn ingredient(key: &str, amount: &str) -> Ingredient {
    Ingredient { key: key.to_string(), amount: amount.to_string() }
}

#[test]
fn can_serialize_recipe_io() {
    let catalog = StaticCatalog::load(Some(RECIPES));
    let mut testing_object = JsonValue::new_object();
    // Add some values
    testing_object["copper-plate"] = 2.into();
    testing_object["iron-gear-wheel"] = 6.into();
    testing_object["raw-wood"] = 10.into();

    let result = catalog.serialize_recipe_io(&testing_object);
    assert_eq!(result, "Copper plate x2, Iron gear wheel x6, raw-wood x10");
}

#[test]
fn faq_system_can_parse_json_into_list() {
    let mut testing_object = JsonValue::new_object();
    // push some values to the object
    testing_object["first"] = "value".into();
    testing_object["second"] = "value".into();
    testing_object["third"] = "value".into();
    testing_object["fourth"] = "value".into();

    let listed = jsonvalue_as_comma_list(&testing_object, Purpose::Faqs);
    // Test if the result is what we want
    assert_eq!(listed, "first, second, third, fourth.");
}

#[test]
fn ratios_can_parse_json_into_list() {
    let mut testing_object = JsonValue::new_object();
    // push some values to the object
    testing_object["first"] = "value".into();
    testing_object["second"] = "value".into();
    testing_object["third"] = "value".into();
    testing_object["fourth"] = "value".into();

    let listed = jsonvalue_as_comma_list(&testing_object, Purpose::Ratios);
    // Test if the result is what we want
    assert_eq!(listed, "first, second, third, fourth");
}

#[test]
fn empty_lists_of_keys() {
    assert_eq!(jsonvalue_as_comma_list(&JsonValue::new_object(), Purpose::Faqs), "No FAQs configured.");
    assert_eq!(jsonvalue_as_comma_list(&JsonValue::Null, Purpose::Faqs), "No FAQs configured.");
    assert_eq!(jsonvalue_as_comma_list(&JsonValue::new_object(), Purpose::Ratios), "");
    assert_eq!(comma_list(&vec![], Purpose::Faqs), ".");
    assert_eq!(comma_list(&vec![], Purpose::Ratios), "");
}

#[test]
fn short_lists_keep_their_comma() {
    let one = vec!["a".to_string()];
    assert_eq!(comma_list(&one, Purpose::Ratios), "a, ");
    assert_eq!(comma_list(&one, Purpose::Faqs), "a, .");
    let wide = vec!["\u{e9}".to_string()];
    assert_eq!(comma_list(&wide, Purpose::Ratios), "\u{e9}");
    let two = vec!["ab".to_string()];
    assert_eq!(comma_list(&two, Purpose::Faqs), "ab.");
    let empty_key = vec!["".to_string()];
    assert_eq!(comma_list(&empty_key, Purpose::Ratios), ", ");
    let pair = vec!["".to_string(), "".to_string()];
    assert_eq!(comma_list(&pair, Purpose::Ratios), ", ");
}

#[test]
fn catalog_loads_records() {
    let catalog = StaticCatalog::load(Some(RECIPES));
    assert_eq!(catalog.len(), 3);
    let record = catalog.record("copper-plate").unwrap();
    assert_eq!(
        record,
        &CatalogRecord {
            display_name: Some("Copper plate".to_string()),
            cost: "3.5".to_string(),
            inputs: vec![ingredient("copper-ore", "1")],
            outputs: vec![ingredient("copper-plate", "1")],
        }
    );
    let ore = catalog.record("copper-ore").unwrap();
    assert_eq!(ore.display_name, None);
    assert_eq!(ore.inputs, vec![]);
    assert!(catalog.record("uranium").is_none());
}

#[test]
fn catalog_degrades_to_empty() {
    for stored in [None, Some("{ no json"), Some("{}"), Some("[1]")].iter() {
        let catalog = StaticCatalog::load(*stored);
        assert!(catalog.is_empty());
        assert_eq!(catalog.lookup("copper-plate"), Match::NoMatch);
        assert_eq!(catalog.display_name("copper-plate"), "copper-plate");
    }
}

#[test]
fn catalog_lookup_resolves_the_nearest_key() {
    let catalog = StaticCatalog::load(Some(RECIPES));
    assert_eq!(catalog.lookup("copper-plate"), Match::ExactMatch("copper-plate".to_string()));
    assert_eq!(catalog.lookup("coper-plate"), Match::FuzzyMatch("copper-plate".to_string(), 1));
    assert_eq!(catalog.lookup("copper-or"), Match::FuzzyMatch("copper-ore".to_string(), 1));
    assert_eq!(catalog.lookup("nuclear-reactor-core"), Match::NoMatch);
}

#[test]
fn display_name_falls_back_to_the_key() {
    let catalog = StaticCatalog::load(Some(RECIPES));
    assert_eq!(catalog.display_name("iron-gear-wheel"), "Iron gear wheel");
    assert_eq!(catalog.display_name("copper-ore"), "copper-ore");
    assert_eq!(catalog.display_name("raw-wood"), "raw-wood");
}

#[test]
fn describe_lists_ingredients() {
    let catalog = StaticCatalog::load(Some(RECIPES));
    assert_eq!(catalog.describe(&vec![]), "None");
    assert_eq!(catalog.describe(&vec![ingredient("copper-plate", "2")]), "Copper plate x2");
    assert_eq!(
        catalog.describe(&vec![ingredient("copper-ore", "1"), ingredient("x", "")]),
        "copper-ore x1, x x"
    );
}

#[test]
fn recipe_io_of_documents_that_hold_nothing() {
    let catalog = StaticCatalog::load(Some(RECIPES));
    assert_eq!(catalog.serialize_recipe_io(&JsonValue::new_object()), "None");
    assert_eq!(catalog.serialize_recipe_io(&JsonValue::Null), "None");
    assert_eq!(catalog.serialize_recipe_io(&JsonValue::from(0)), "None");
    assert_eq!(catalog.serialize_recipe_io(&JsonValue::from("wood")), "");
}

#[test]
fn catalog_from_parts_keeps_the_order() {
    let record = |name: Option<&str>| CatalogRecord {
        display_name: name.map(|n| n.to_string()),
        cost: "1".to_string(),
        inputs: vec![],
        outputs: vec![],
    };
    let catalog = StaticCatalog::from_parts(
        vec!["a".to_string(), "b".to_string(), "a".to_string()],
        vec![record(Some("first")), record(None), record(Some("second"))],
    );
    assert_eq!(catalog.len(), 3);
    assert_eq!(catalog.display_name("a"), "first");
    assert_eq!(catalog.display_name("b"), "b");
    assert_eq!(catalog.lookup("b"), Match::ExactMatch("b".to_string()));
}

#[test]
fn catalog_refuses_a_number_with_too_many_digits() {
    let long = format!("{{\"a\": {{\"energy-required\": 0.{}}}}}", "0".repeat(32769));
    let catalog = StaticCatalog::load(Some(&long));
    assert!(catalog.is_empty());
    assert_eq!(catalog.lookup("a"), Match::NoMatch);
    let admitted = format!("{{\"a\": {{\"energy-required\": 0.{}}}}}", "0".repeat(32768));
    let catalog = StaticCatalog::load(Some(&admitted));
    assert_eq!(catalog.len(), 1);
    assert_eq!(catalog.record("a").unwrap().cost, "0");
}

#[test]
fn catalog_from_parts_takes_the_pairs_that_both_lists_have() {
    let record = |cost: &str| CatalogRecord {
        display_name: None,
        cost: cost.to_string(),
        inputs: vec![],
        outputs: vec![],
    };
    let keys = vec!["a".to_string(), "b".to_string(), "c".to_string()];
    let catalog = StaticCatalog::from_parts(keys.clone(), vec![record("1"), record("2")]);
    assert_eq!(catalog.len(), 2);
    assert_eq!(catalog.record("b").unwrap().cost, "2");
    assert!(catalog.record("c").is_none());
    let catalog = StaticCatalog::from_parts(vec!["a".to_string()], vec![record("1"), record("2")]);
    assert_eq!(catalog.len(), 1);
    assert_eq!(catalog.record("a").unwrap().cost, "1");
    assert!(StaticCatalog::from_parts(keys, vec![]).is_empty());
}

#[test]
fn keys_of_a_dictionary_as_a_line() {
    let keys = vec!["first".to_string(), "second".to_string()];
    assert_eq!(keys_as_comma_list(&keys, Purpose::Faqs), "first, second.");
    assert_eq!(keys_as_comma_list(&keys, Purpose::Ratios), "first, second");
    assert_eq!(keys_as_comma_list(&vec![], Purpose::Faqs), "No FAQs configured.");
    assert_eq!(keys_as_comma_list(&vec![], Purpose::Ratios), "");
}
