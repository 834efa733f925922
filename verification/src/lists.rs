//! The keys of a dictionary as one line of text.

use crate::document::{blank, is_blank, keys, keys_of};
use crate::store::Purpose;
use crate::text::{chars_of, string_of};
use json::JsonValue;
use vstd::prelude::*;
use vstd::string::{StringExecFns, StringSliceAdditionalSpecFns};
use vstd::utf8::encode_utf8;

verus! {

/// The first `n` keys, each followed by a comma and a space.
pub open spec fn each_with_comma(keys: Seq<Seq<char>>, n: int) -> Seq<char>
    decreases n,
{
    if n <= 0 {
        Seq::empty()
    } else {
        each_with_comma(keys, n - 1) + keys[n - 1] + seq![',', ' ']
    }
}

/// The keys separated by commas: each key is followed by a comma and a
/// space, and the last comma and space are cut off if the text is longer
/// than three bytes.
pub open spec fn separated(keys: Seq<Seq<char>>) -> Seq<char> {
    let all = each_with_comma(keys, keys.len() as int);
    if all.len() >= 2 && encode_utf8(all).len() > 3 {
        all.take(all.len() - 2)
    } else {
        all
    }
}

/// The line that lists the keys: for ratios the keys separated by commas;
/// for FAQs the same, closed by a full stop.
pub open spec fn comma_line(keys: Seq<Seq<char>>, purpose: Purpose) -> Seq<char> {
    match purpose {
        Purpose::Faqs => separated(keys).push('.'),
        Purpose::Ratios => separated(keys),
    }
}

/// The line that lists `keys`.
pub fn comma_list(keys: &Vec<String>, purpose: Purpose) -> (line: String)
    ensures
        line@ == comma_line(keys.deep_view(), purpose),
{
    let ghost ks = keys.deep_view();
    let mut all: Vec<char> = Vec::new();
    let mut i: usize = 0;
    while i < keys.len()
        invariant
            i <= keys@.len(),
            ks == keys.deep_view(),
            all@ == each_with_comma(ks, i as int),
        decreases keys@.len() - i,
    {
        let ghost before = all@;
        let mut key = chars_of(keys[i].as_str());
        all.append(&mut key);
        all.push(',');
        all.push(' ');
        proof {
            assert(ks[i as int] == keys@[i as int]@);
            assert(all@ =~= before + ks[i as int] + seq![',', ' ']);
        }
        i = i + 1;
    }
    let ghost joined = all@;
    let whole = string_of(all.as_slice());
    let bytes = whole.as_str().as_bytes();
    assert(bytes@ == encode_utf8(joined));
    if all.len() >= 2 && bytes.len() > 3 {
        let n = all.len() - 2;
        all.truncate(n);
        assert(all@ =~= joined.take(joined.len() - 2));
    }
    assert(all@ == separated(ks));
    match purpose {
        Purpose::Faqs => all.push('.'),
        Purpose::Ratios => {},
    }
    string_of(all.as_slice())
}

/// The line that lists the keys of a dictionary: for FAQs without keys
/// `No FAQs configured.`; else the line of the keys.
pub open spec fn keys_line(keys: Seq<Seq<char>>, purpose: Purpose) -> Seq<char> {
    if purpose == Purpose::Faqs && keys.len() == 0 {
        "No FAQs configured."@
    } else {
        comma_line(keys, purpose)
    }
}

/// The line that lists the keys of a dictionary.
pub fn keys_as_comma_list(keys: &Vec<String>, purpose: Purpose) -> (line: String)
    ensures
        line@ == keys_line(keys.deep_view(), purpose),
{
    if purpose == Purpose::Faqs && keys.len() == 0 {
        return String::from_str("No FAQs configured.");
    }
    comma_list(keys, purpose)
}

/// The line that lists what a dictionary holds, as a document holds it.
///
/// For FAQs a document that is empty gives `No FAQs configured.`; any other
/// gives its keys separated by commas and closed by a full stop. For ratios
/// the keys are separated by commas and nothing more is said.
pub fn jsonvalue_as_comma_list(json_value: &JsonValue, purpose: Purpose) -> (line: String)
    ensures
        line@ == if purpose == Purpose::Faqs && blank(*json_value) {
            "No FAQs configured."@
        } else {
            comma_line(keys_of(*json_value), purpose)
        },
{
    if purpose == Purpose::Faqs && is_blank(json_value) {
        return String::from_str("No FAQs configured.");
    }
    let ks = keys(json_value);
    comma_list(&ks, purpose)
}

} // verus!
