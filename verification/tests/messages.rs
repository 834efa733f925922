use wikibot::message::{
    fix_message, make_log_entry, ping_reply, reply_into_chat, say_into_chat, PING_REPLIES,
};
use wikibot::text::{
    chars_of, find, has_digit_runs_within, is_white_space, remove_all, string_of, trim,
};

fn chars(s: &str) -> Vec<char> {
    s.chars().collect()
}

#[test]
fn can_fix_messages_with_arg() {
    let message = String::from("+faqs get steam");
    assert_eq!("steam", fix_message(message, "faqs get ", "+"))
}

#[test]
fn can_fix_messages_without_arg() {
    let message = String::from("+faqs get");
    assert_eq!("", fix_message(message, "faqs get", "+"))
}

#[test]
fn can_fix_messages_with_pipes() {
    let message = String::from("+faqs get steam || Hello, I'm talking after this.");
    assert_eq!("steam", fix_message(message, "faqs get", "+"))
}

#[test]
fn can_fix_messages_without_arg_and_with_pipes() {
    let message = String::from("+faqs get || Comprehensive test coverage!");
    assert_eq!("", fix_message(message, "faqs get", "+"))
}

#[test]
fn fix_message_removes_the_mention() {
    let message = String::from("@WikiBot#3868 recipe iron plate");
    assert_eq!("iron plate", fix_message(message, "recipe", ""));
}

#[test]
fn fix_message_with_empty_prefix_keeps_the_rest() {
    assert_eq!("steam", fix_message(String::from("faq steam"), "faq", ""));
}

#[test]
fn fix_message_cuts_at_the_first_mark_only() {
    let message = String::from("+page a || b || c");
    assert_eq!("a", fix_message(message, "page", "+"));
}

#[test]
fn fix_message_agrees_with_the_standard_string_functions() {
    let cases = [
        ("+faq  steam engine  ", "faq", "+"),
        ("!!faq faq power||", "faq", "!!"),
        ("\t+ratio\u{a0}belt \u{3000}", "ratio", "+"),
        ("aXXa", "XX", "a"),
        ("ababab", "aba", "zz"),
    ];
    for (message, command, prefix) in cases.iter() {
        let mut expected = message.to_string();
        if let Some(index) = expected.find(" ||") {
            expected.truncate(index);
        }
        let expected = expected
            .replace(command, "")
            .replace(prefix, "")
            .replace("@WikiBot#3868", "")
            .trim()
            .to_owned();
        assert_eq!(expected, fix_message(message.to_string(), command, prefix));
    }
}

#[test]
fn chars_and_strings_convert_both_ways() {
    assert_eq!(chars_of("a\u{e9}z"), vec!['a', '\u{e9}', 'z']);
    assert_eq!(string_of(&['a', '\u{e9}', 'z']), "a\u{e9}z");
    assert_eq!(string_of(&chars_of("")), "");
}

#[test]
fn find_gives_the_first_position() {
    assert_eq!(find(&chars("a || b || c"), &chars(" ||")), Some(1));
    assert_eq!(find(&chars("abc"), &chars("")), Some(0));
    assert_eq!(find(&chars(""), &chars("")), Some(0));
    assert_eq!(find(&chars("abc"), &chars("abcd")), None);
    assert_eq!(find(&chars("abc"), &chars("c")), Some(2));
    assert_eq!(find(&chars("abc"), &chars("x")), None);
}

#[test]
fn remove_all_takes_leftmost_occurrences() {
    assert_eq!(remove_all(&chars("ababab"), &chars("aba")), chars("bab"));
    assert_eq!(remove_all(&chars("aaa"), &chars("aa")), chars("a"));
    assert_eq!(remove_all(&chars("abc"), &chars("")), chars("abc"));
    assert_eq!(remove_all(&chars("abc"), &chars("abc")), chars(""));
    assert_eq!(remove_all(&chars("xabcx"), &chars("abc")), chars("xx"));
}

#[test]
fn trim_removes_white_space_at_both_ends() {
    assert_eq!(trim(&chars("  a b \n")), chars("a b"));
    assert_eq!(trim(&chars(" \t ")), chars(""));
    assert_eq!(trim(&chars("")), chars(""));
    assert_eq!(trim(&chars("\u{2003}x\u{85}")), chars("x"));
}

#[test]
fn white_space_is_what_the_standard_library_calls_it() {
    let mut n: u32 = 0;
    while n <= 0x11000 {
        if let Some(c) = char::from_u32(n) {
            assert_eq!(is_white_space(c), c.is_whitespace());
        }
        n += 1;
    }
}

#[test]
fn delivered_messages_leave_nothing_to_log() {
    assert_eq!(reply_into_chat("Pong!", Ok(())), None);
    assert_eq!(say_into_chat("Pong!", Ok(())), None);
}

#[test]
fn undelivered_messages_are_logged_with_their_error() {
    let expected = Some(String::from(
        "Unable to send reply message: Pong!. Error is no permission",
    ));
    assert_eq!(reply_into_chat("Pong!", Err(String::from("no permission"))), expected);
    assert_eq!(say_into_chat("Pong!", Err(String::from("no permission"))), expected);
}

#[test]
fn log_entries_carry_kind_and_time() {
    assert_eq!(
        make_log_entry("Wrote to json file: 1-faqs.json", "Info", "Mon, 1 Jan 2018 00:00:00 +0000"),
        "[Info at Mon, 1 Jan 2018 00:00:00 +0000] Wrote to json file: 1-faqs.json"
    );
}

/// A small deterministic source of sample texts.
struct Samples(u64);

impl Samples {
    fn next(&mut self) -> u64 {
        self.0 = self.0.wrapping_mul(6364136223846793005).wrapping_add(1442695040888963407);
        self.0 >> 33
    }

    fn text(&mut self, alphabet: &[char], longest: u64) -> String {
        let length = self.next() % (longest + 1);
        (0..length)
            .map(|_| alphabet[(self.next() % alphabet.len() as u64) as usize])
            .collect()
    }
}

#[test]
fn search_and_removal_agree_with_the_standard_string_functions() {
    let alphabet = ['a', 'b', ' ', '|', '\u{e9}'];
    let mut samples = Samples(7);
    for _ in 0..3000 {
        let s = samples.text(&alphabet, 12);
        let pat = samples.text(&alphabet, 3);
        let found = find(&chars(&s), &chars(&pat)).map(|i| s.chars().take(i).collect::<String>().len());
        assert_eq!(found, s.find(pat.as_str()), "find {:?} in {:?}", pat, s);
        let removed: String = remove_all(&chars(&s), &chars(&pat)).iter().collect();
        assert_eq!(removed, s.replace(pat.as_str(), ""), "remove {:?} from {:?}", pat, s);
    }
}

#[test]
fn trimming_agrees_with_the_standard_string_functions() {
    let alphabet = ['a', ' ', '\t', '\n', '\u{a0}', '\u{2009}', '\u{200b}', '\u{3000}', '-'];
    let mut samples = Samples(11);
    for _ in 0..3000 {
        let s = samples.text(&alphabet, 8);
        let trimmed: String = trim(&chars(&s)).iter().collect();
        assert_eq!(trimmed, s.trim(), "trim {:?}", s);
    }
}

#[test]
fn fix_message_agrees_on_many_messages() {
    let alphabet = ['f', 'a', 'q', '+', ' ', '|', '@', 'x'];
    let mut samples = Samples(13);
    for _ in 0..2000 {
        let message = samples.text(&alphabet, 16);
        let command = samples.text(&['f', 'a', 'q', ' '], 3);
        let prefix = samples.text(&['+', '@', 'x'], 2);
        let mut expected = message.clone();
        if let Some(index) = expected.find(" ||") {
            expected.truncate(index);
        }
        let expected = expected
            .replace(command.as_str(), "")
            .replace(prefix.as_str(), "")
            .replace("@WikiBot#3868", "")
            .trim()
            .to_owned();
        assert_eq!(expected, fix_message(message.clone(), &command, &prefix), "{:?}", message);
    }
}

#[test]
fn ping_replies_by_choice() {
    assert_eq!(PING_REPLIES, 21);
    assert_eq!(ping_reply(0), Some("Pong!"));
    assert_eq!(ping_reply(17), Some("!gniP"));
    assert_eq!(ping_reply(20), Some("Yes?"));
    assert_eq!(ping_reply(21), None);
    assert_eq!(ping_reply(usize::MAX), None);
    let mut seen = std::collections::HashSet::new();
    for choice in 0..PING_REPLIES {
        assert!(seen.insert(ping_reply(choice).unwrap()));
    }
}

#[test]
fn runs_of_digits_are_measured() {
    assert!(has_digit_runs_within("", 0));
    assert!(has_digit_runs_within("abc", 0));
    assert!(!has_digit_runs_within("a1", 0));
    assert!(has_digit_runs_within("12a34", 2));
    assert!(!has_digit_runs_within("12a345", 2));
    assert!(has_digit_runs_within("0.000", 3));
    assert!(!has_digit_runs_within("0.0000", 3));
    assert!(has_digit_runs_within("\u{663}\u{663}\u{663}", 0));
}
