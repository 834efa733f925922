use std::io::BufReader;

use atom_syndication::Feed;
use wikibot::links::{api_search_link, fff_number, fff_old_link, page_link};
use wikibot::matcher::{first_within, Candidate};
use wikibot::modder::{modder_popularity, parse_json_into_modder, Modder};
use wikibot::mods::{mod_popularity, parse_json_into_mod, Mod, ModRecord};
use wikibot::search::{serialize_search_results, SearchEntry, Standing};
use wikibot::text::{less_than, replace_char};
use wikibot::web::{
    experimental_version_at, format_rss_time, get_experimental_version_string,
    get_stable_version_string, stable_version_at,
};

const MOD: &str = "{
    \"downloads_count\": 1234,
    \"first_media_file\": {\"urls\": {\"thumb\": \"https://x/thumb.png\"}},
    \"homepage\": \"https://example.org\",
    \"github_path\": \"\",
    \"tags\": [{\"title\": \"Logistics\"}, {\"title\": \"Other\"}],
    \"created_at\": \"2017-05-01 10:00:00.000000+00:00\",
    \"updated_at\": \"2017-06-02 11:00:00.000000+00:00\",
    \"latest_release\": {
        \"download_url\": \"/api/downloads/data/mods/1/belt sorter.zip\",
        \"version\": \"1.2.3\",
        \"factorio_version\": \"0.15\",
        \"info_json\": {\"dependencies\": [\"base >= 0.15\", \"? other\", \"lib\", \"?more\"]}
    },
    \"name\": \"belt sorter\",
    \"summary\": \"Sorts belts.\",
    \"owner\": \"some one\",
    \"title\": \"Belt Sorter\"
}";

fn record() -> ModRecord {
    ModRecord {
        downloads_count: Some(7),
        thumb: None,
        homepage: None,
        github_path: Some("me/mod".to_string()),
        tag: None,
        created_at: "2017-01-02".to_string(),
        updated_at: "2017-03-04 05:06".to_string(),
        dependencies: None,
        download_url: "/d.zip".to_string(),
        name: "m".to_string(),
        summary: "s".to_string(),
        owner: "o".to_string(),
        title: "T".to_string(),
        version: "0.1.0".to_string(),
        factorio_version: "0.16".to_string(),
    }
}

fn dated(name: &str, created: &str, updated: &str, downloads: u64) -> Mod {
    let mut r = record();
    r.name = name.to_string();
    r.created_at = created.to_string();
    r.updated_at = updated.to_string();
    r.downloads_count = Some(downloads);
    Mod::from_record(&r).unwrap()
}

#[test]
fn mod_is_made_ready_to_show() {
    let doc = json::parse(MOD).unwrap();
    let m = parse_json_into_mod(&doc).unwrap();
    assert_eq!(m.download_count, 1234);
    assert_eq!(m.thumb, "https://x/thumb.png");
    assert_eq!(m.homepage, "[Home](https://example.org)");
    assert_eq!(m.source_path, "None");
    assert_eq!(m.tag, Some("Logistics".to_string()));
    assert_eq!(m.creation_date, "2017-05-01");
    assert_eq!(m.last_updated, "2017-06-02");
    assert_eq!(m.dependencies, "base >= 0.15\nlib\n...and 2 optional dependencies.");
    assert_eq!(
        m.download_link,
        "https://mods.factorio.com/api/downloads/data/mods/1/belt sorter.zip"
    );
    assert_eq!(m.name, "belt sorter");
    assert_eq!(m.summary, "Sorts belts.");
    assert_eq!(m.author, "some one");
    assert_eq!(m.title, "Belt Sorter");
    assert_eq!(m.latest_version, "1.2.3");
    assert_eq!(m.factorio_version, "0.15");
    assert_eq!(m.link, "https://mods.factorio.com/mods/some%20one/belt%20sorter");
}

#[test]
fn mod_without_a_number_of_downloads_is_nothing() {
    assert_eq!(parse_json_into_mod(&json::parse("{\"name\": \"x\"}").unwrap()), None);
    assert_eq!(parse_json_into_mod(&json::parse("{\"downloads_count\": \"7\"}").unwrap()), None);
    let mut r = record();
    r.downloads_count = None;
    assert_eq!(Mod::from_record(&r), None);
}

#[test]
fn mod_with_bare_document_gets_the_defaults() {
    let m = parse_json_into_mod(&json::parse("{\"downloads_count\": 0}").unwrap()).unwrap();
    assert_eq!(m.thumb, "http://i.imgur.com/ckaei9P.png");
    assert_eq!(m.homepage, "None");
    assert_eq!(m.source_path, "None");
    assert_eq!(m.tag, None);
    assert_eq!(m.creation_date, "null");
    assert_eq!(m.dependencies, "No dependencies.");
    assert_eq!(m.download_link, "https://mods.factorio.comnull");
    assert_eq!(m.link, "https://mods.factorio.com/mods/null/null");
}

#[test]
fn mod_record_formats_each_field() {
    let m = Mod::from_record(&record()).unwrap();
    assert_eq!(m.source_path, "[Source](https://github.com/me/mod)");
    assert_eq!(m.creation_date, "2017-01-02");
    assert_eq!(m.last_updated, "2017-03-04");
    assert_eq!(m.download_link, "https://mods.factorio.com/d.zip");
    assert_eq!(m.duplicate(), m);
}

#[test]
fn dependencies_count_the_optional_ones() {
    let text = |deps: &[&str]| {
        let mut r = record();
        r.dependencies = Some(deps.iter().map(|d| d.to_string()).collect());
        Mod::from_record(&r).unwrap().dependencies
    };
    assert_eq!(text(&[]), "");
    assert_eq!(text(&["base"]), "base\n");
    assert_eq!(text(&["? a"]), "...and 1 optional dependency.");
    assert_eq!(text(&["base", "? a", "?b", "", "? c"]), "base\n\n...and 3 optional dependencies.");
}

#[test]
fn popularity_of_mods() {
    assert_eq!(mod_popularity(0), ":asterisk: New mod! :asterisk:");
    assert_eq!(mod_popularity(50), ":asterisk: New mod! :asterisk:");
    assert_eq!(mod_popularity(51), ":seedling: Gathering a following... :seedling:");
    assert_eq!(mod_popularity(200), ":seedling: Gathering a following... :seedling:");
    assert_eq!(mod_popularity(201), ":third_place: A decent amount of downloads. :third_place:");
    assert_eq!(mod_popularity(2000), ":second_place: Pretty popular! :second_place:");
    assert_eq!(mod_popularity(5000), ":first_place: Very very popular! :first_place:");
    assert_eq!(mod_popularity(10000), ":heart: Extremely popular! :heart:");
    assert_eq!(mod_popularity(10001), ":trophy: Hall of Fame! :trophy:");
    assert_eq!(mod_popularity(100000), ":trophy: Hall of Fame! :trophy:");
    assert_eq!(
        mod_popularity(100001),
        ":military_medal: Beloved by the community! :military_medal:"
    );
    assert_eq!(mod_popularity(105001), ":medal: Nearing the Hall of Fame! :medal:");
    assert_eq!(mod_popularity(200001), ":trophy: Hall of Fame! :trophy:");
}

#[test]
fn popularity_of_modders() {
    assert_eq!(modder_popularity(200), ":asterisk: Learning the ropes! :asterisk:");
    assert_eq!(modder_popularity(201), ":grin: Rising star! :grin:");
    assert_eq!(modder_popularity(5000), ":third_place: Gathering a following... :third_place:");
    assert_eq!(modder_popularity(10000), ":second_place: Excellent mod maker! :second_place:");
    assert_eq!(modder_popularity(50000), ":first_place: Pretty popular! :first_place:");
    assert_eq!(
        modder_popularity(80000),
        ":military_medal: Beloved by the community! :military_medal:"
    );
    assert_eq!(modder_popularity(100000), ":medal: Viral! :medal:");
    assert_eq!(modder_popularity(500000), ":100: Hundreds of thousands of players! :100:");
    assert_eq!(
        modder_popularity(1000000),
        ":eight_pointed_black_star: Approaching the 1 million club! :eight_pointed_black_star:"
    );
    assert_eq!(modder_popularity(1050000), ":spaghetti: 1 Million club achieved! :spaghetti:");
    assert_eq!(modder_popularity(1050001), ":heart_eyes: Superstar modder! :heart_eyes:");
}

#[test]
fn modder_is_made_of_their_mods() {
    let mods = vec![
        dated("b", "2017-02-01", "2017-09-01", 10),
        dated("a", "2016-12-31", "2017-03-01", 20),
        dated("c", "2017-02-01", "2017-09-01", 30),
        dated("d", "2016-12-31", "2017-01-01", 40),
    ];
    let m = Modder::from_mods("someone", &mods).unwrap();
    assert_eq!(m.username, "someone");
    assert_eq!(m.total_downloads, 100);
    assert_eq!(m.latest_mod.name, "b");
    assert_eq!(m.first_mod.name, "a");
    assert_eq!(m.last_updated_mod.name, "b");
    assert_eq!(m.last_updated_mod_date, "2017-09-01");
}

#[test]
fn modder_without_mods_or_with_too_many_downloads_is_nothing() {
    assert_eq!(Modder::from_mods("someone", &vec![]), None);
    let mods = vec![dated("a", "1", "1", u64::MAX), dated("b", "2", "2", 1)];
    assert_eq!(Modder::from_mods("someone", &mods), None);
    let mods = vec![dated("a", "1", "1", u64::MAX - 1), dated("b", "2", "2", 1)];
    assert_eq!(Modder::from_mods("someone", &mods).unwrap().total_downloads, u64::MAX);
}

#[test]
fn modder_is_read_from_the_results() {
    let results = json::parse(
        "[{\"downloads_count\": 5, \"name\": \"x\", \"created_at\": \"2017-01-01 00:00\"},
          {\"downloads_count\": 6, \"name\": \"y\", \"created_at\": \"2017-02-01 00:00\"}]",
    )
    .unwrap();
    let m = parse_json_into_modder("someone", &results).unwrap();
    assert_eq!(m.total_downloads, 11);
    assert_eq!(m.latest_mod.name, "y");
    assert_eq!(m.first_mod.name, "x");
    assert_eq!(parse_json_into_modder("someone", &json::parse("[]").unwrap()), None);
    assert_eq!(parse_json_into_modder("someone", &json::parse("[{\"name\": \"x\"}]").unwrap()), None);
}

fn found(title: &str, owner: &str, name: &str, standing: Standing) -> SearchEntry {
    SearchEntry {
        title: title.to_string(),
        owner: owner.to_string(),
        name: name.to_string(),
        standing,
    }
}

#[test]
fn search_results_list_the_current_mods() {
    let results = vec![
        found("Belt Sorter", "me", "belt sorter", Standing::Current),
        found("Old", "you", "old", Standing::Outdated),
        found("Odd", "you", "odd", Standing::Incomplete),
        found("Bob's", "bob", "bobs", Standing::Current),
    ];
    assert_eq!(
        serialize_search_results(&results),
        "- [Belt Sorter](https://mods.factorio.com/mods/me/belt%20sorter) by me\n\
         - [Bob's](https://mods.factorio.com/mods/bob/bobs) by bob\n\
         \n...and 1 outdated mod(s)."
    );
}

#[test]
fn search_results_without_current_mods() {
    let results = vec![
        found("Old", "you", "old", Standing::Outdated),
        found("Older", "you", "older", Standing::Outdated),
    ];
    assert_eq!(
        serialize_search_results(&results),
        "No results for current factorio stable version or higher.\n                \n2 outdated mods were found."
    );
    assert_eq!(
        serialize_search_results(&vec![]),
        "No results for current factorio stable version or higher.\n                \n0 outdated mods were found."
    );
}

#[test]
fn search_results_stop_after_ten() {
    let mut results = Vec::new();
    for _ in 0..10 {
        results.push(found("Old", "you", "old", Standing::Outdated));
    }
    results.push(found("New", "me", "new", Standing::Current));
    assert_eq!(
        serialize_search_results(&results),
        "No results for current factorio stable version or higher.\n                \n10 outdated mods were found."
    );
}

#[test]
fn first_within_takes_key_or_text() {
    let list = vec![
        Candidate { key: "far-away-name".to_string(), text: "Completely different".to_string() },
        Candidate { key: "belt-sorter".to_string(), text: "Sorting of belts".to_string() },
        Candidate { key: "xx".to_string(), text: "Belt Sorter".to_string() },
    ];
    assert_eq!(first_within(&list, "belt-sorte", 4), Some(1));
    assert_eq!(first_within(&list, "Belt Sorter", 0), Some(2));
    assert_eq!(first_within(&list, "nothing like any of these at all", 4), None);
    assert_eq!(first_within(&Vec::new(), "x", 4), None);
}

#[test]
fn rss_time_is_cut_at_the_t() {
    assert_eq!(format_rss_time("2017-09-01T12:00:00+00:00"), "Date: 2017-09-01");
    assert_eq!(format_rss_time("2017-09-01"), "Date: 2017-09-01");
    assert_eq!(format_rss_time("T"), "Date: ");
    assert_eq!(format_rss_time(""), "Date: ");
}

#[test]
fn versions_are_sliced_out_of_the_page() {
    let html = "<p>Stable: 0.15.37</p><p>Experimental: 0.16.01</p>";
    let loc = html.find("Stable:").unwrap();
    assert_eq!(get_stable_version_string(loc, html), "0.15.37");
    assert_eq!(stable_version_at(loc, html), Some("0.15.37".to_string()));
    let loc = html.find("Experimental:").unwrap();
    assert_eq!(get_experimental_version_string(loc, html), "0.16.01");
    assert_eq!(experimental_version_at(loc, html), Some("0.16.01".to_string()));
}

#[test]
fn versions_beyond_the_page_are_nothing() {
    let html = "Stable: 0.15";
    assert_eq!(stable_version_at(0, html), None);
    assert_eq!(experimental_version_at(0, html), None);
    assert_eq!(stable_version_at(usize::MAX, html), None);
    let wide = "Stable: \u{e9}\u{e9}\u{e9}\u{e9}";
    assert_eq!(stable_version_at(0, wide), None);
    assert_eq!(stable_version_at(0, "Stable: \u{e9}\u{e9}\u{e9}1"), Some("\u{e9}\u{e9}\u{e9}1".to_string()));
}

#[test]
fn texts_are_ordered_like_strings() {
    let words = ["", "a", "ab", "b", "2017-01-01", "2017-01-02", "2016-12-31", "\u{e9}", "z"];
    for a in words.iter() {
        for b in words.iter() {
            let x: Vec<char> = a.chars().collect();
            let y: Vec<char> = b.chars().collect();
            assert_eq!(less_than(&x, &y), a < b);
        }
    }
}

#[test]
fn replace_char_writes_each_space_as_code() {
    let s: Vec<char> = "a b  c".chars().collect();
    let code: Vec<char> = "%20".chars().collect();
    let r: String = replace_char(&s, ' ', &code).iter().collect();
    assert_eq!(r, "a b  c".replace(" ", "%20"));
}

#[test]
fn wiki_pages_are_linked_with_underscores() {
    assert_eq!(page_link("iron plate"), "https://wiki.factorio.com/iron_plate");
    assert_eq!(page_link("Main Page  x"), "https://wiki.factorio.com/Main_Page__x");
    assert_eq!(page_link(""), "https://wiki.factorio.com/");
}

#[test]
fn api_searches_encode_plus_and_space() {
    assert_eq!(
        api_search_link("player index"),
        "https://duckduckgo.com/?q=site%3Alua-api.factorio.com%2Flatest%2F+player+index"
    );
    assert_eq!(
        api_search_link("a+b c"),
        "https://duckduckgo.com/?q=site%3Alua-api.factorio.com%2Flatest%2F+a%20b+c"
    );
}

#[test]
fn older_issues_are_linked_by_number() {
    assert_eq!(fff_old_link("24"), "https://factorio.com/blog/post/fff-24");
}

#[test]
fn issue_numbers_are_the_last_three_characters() {
    assert_eq!(fff_number("https://www.factorio.com/blog/post/fff-205"), Some(205));
    assert_eq!(fff_number("https://www.factorio.com/blog/post/fff-1205"), Some(205));
    assert_eq!(fff_number("fff-24"), None);
    assert_eq!(fff_number("24"), None);
    assert_eq!(fff_number("007"), Some(7));
    assert_eq!(fff_number("x+12"), Some(12));
    assert_eq!(fff_number("fff-20\u{e9}"), None);
}

const BLOG_FEED: &str = "<?xml version=\"1.0\" encoding=\"utf-8\"?>
<feed xmlns=\"http://www.w3.org/2005/Atom\">
  <title>Factorio Blog</title>
  <id>https://www.factorio.com/blog/</id>
  <updated>2017-09-01T12:00:00+00:00</updated>
  <entry>
    <title>Friday Facts #205 - Roadmap</title>
    <id>https://www.factorio.com/blog/post/fff-205</id>
    <updated>2017-09-01T12:00:00+00:00</updated>
    <link href=\"https://www.factorio.com/blog/post/fff-205\"/>
  </entry>
  <entry>
    <title>Friday Facts #204</title>
    <id>https://www.factorio.com/blog/post/fff-204</id>
    <updated>2017-08-25T12:00:00+00:00</updated>
    <link href=\"https://www.factorio.com/blog/post/fff-204\"/>
  </entry>
</feed>";

const HOME_PAGE: &str = "<html><body><div class=\"versions\"><p>Stable: 0.15.37</p><p>Experimental: 0.16.01</p></div></body></html>";

// Tests if parsing the blog feed still works, on a recorded feed.
#[test]
fn can_get_and_parse_blog_rss() {
    let reader = BufReader::new(BLOG_FEED.as_bytes());
    // Read into a parseable format
    let feed = Feed::read_from(reader).unwrap();
    let latest_entry = feed.entries().first().unwrap();
    let update_time = latest_entry.updated().to_rfc3339();
    let link = latest_entry.links().first().unwrap().href();
    let number = fff_number(link).unwrap();

    assert!(link.contains("https://www.factorio.com/blog/post/fff-")); //Make sure link is valid
    assert!(number > 200); //It should be at least 200, since that's the latest number rounded down
    assert!(update_time.contains("2017")); //Makes sense, if the feed is up-to-date
    assert_eq!(format_rss_time(&update_time), "Date: 2017-09-01");
}

// Tests if parsing the home page still works, on a recorded page.
#[test]
fn can_get_and_parse_current_version() {
    let html = String::from(HOME_PAGE);
    let latest_stable;
    let latest_experimental;
    if let Some(loc) = html.find("Stable:") {
        latest_stable = get_stable_version_string(loc, &html);
    } else {
        panic!("Couldn't find Stable: field in html.")
    }
    if let Some(loc) = html.find("Experimental:") {
        latest_experimental = get_experimental_version_string(loc, &html);
    } else {
        panic!("Couldn't find Experimental: field in html.")
    }

    assert_ne!(latest_stable, String::from(""));
    assert_ne!(latest_experimental, String::from(""));

    //Should find no html
    assert!(!latest_stable.contains("<"));
    assert!(!latest_experimental.contains("<"));
    assert!(!latest_stable.contains(">"));
    assert!(!latest_experimental.contains(">"));
}

#[test]
fn tag_of_a_mod_as_it_is_shown() {
    let mut r = record();
    assert_eq!(Mod::from_record(&r).unwrap().tag_line(), "Not tagged.");
    r.tag = Some("Logistics".to_string());
    assert_eq!(Mod::from_record(&r).unwrap().tag_line(), "Logistics");
}
