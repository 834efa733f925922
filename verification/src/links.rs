//! The addresses that the bot hands out.

use crate::decimal::{parse_u64, u64_of};
use crate::text::{chars_of, replace_char, string_of, with_replaced};
use vstd::prelude::*;
use vstd::string::StringExecFns;

verus! {

/// The address of a page of the wiki: each space of the page's name is
/// written as an underscore.
pub open spec fn page_link_text(page: Seq<char>) -> Seq<char> {
    "https://wiki.factorio.com/"@ + with_replaced(page, ' ', seq!['_'])
}

/// The address of a page of the wiki.
pub fn page_link(page: &str) -> (link: String)
    ensures
        link@ == page_link_text(page@),
{
    let chars = chars_of(page);
    let mut underscore: Vec<char> = Vec::new();
    underscore.push('_');
    assert(underscore@ =~= seq!['_']);
    let name = string_of(replace_char(chars.as_slice(), ' ', underscore.as_slice()).as_slice());
    let mut link = String::from_str("https://wiki.factorio.com/");
    link.append(name.as_str());
    link
}

/// A query as the search takes it: each plus sign is written as `%20`,
/// then each space as a plus sign.
pub open spec fn query_text(query: Seq<char>) -> Seq<char> {
    with_replaced(with_replaced(query, '+', seq!['%', '2', '0']), ' ', seq!['+'])
}

/// The address of a search of the modding interface's pages.
pub fn api_search_link(query: &str) -> (link: String)
    ensures
        link@ == "https://duckduckgo.com/?q=site%3Alua-api.factorio.com%2Flatest%2F+"@ + query_text(
            query@,
        ),
{
    let chars = chars_of(query);
    let mut code: Vec<char> = Vec::new();
    code.push('%');
    code.push('2');
    code.push('0');
    assert(code@ =~= seq!['%', '2', '0']);
    let mut plus: Vec<char> = Vec::new();
    plus.push('+');
    assert(plus@ =~= seq!['+']);
    let coded = replace_char(chars.as_slice(), '+', code.as_slice());
    let fixed = string_of(replace_char(coded.as_slice(), ' ', plus.as_slice()).as_slice());
    let mut link = String::from_str(
        "https://duckduckgo.com/?q=site%3Alua-api.factorio.com%2Flatest%2F+",
    );
    link.append(fixed.as_str());
    link
}

/// The address of an older issue of the weekly blog, by its number as the
/// user gave it.
pub fn fff_old_link(number: &str) -> (link: String)
    ensures
        link@ == "https://factorio.com/blog/post/fff-"@ + number@,
{
    let mut link = String::from_str("https://factorio.com/blog/post/fff-");
    link.append(number);
    link
}

/// The number at the end of the address of an issue of the weekly blog:
/// what its last three characters stand for, if the address has three and
/// they stand for a number.
pub open spec fn issue_number(link: Seq<char>) -> Option<u64> {
    if link.len() < 3 {
        None
    } else {
        u64_of(link.subrange(link.len() - 3, link.len() as int))
    }
}

/// The number at the end of the address of an issue of the weekly blog.
pub fn fff_number(link: &str) -> (number: Option<u64>)
    ensures
        number == issue_number(link@),
{
    let chars = chars_of(link);
    if chars.len() < 3 {
        return None;
    }
    let mut tail: Vec<char> = Vec::new();
    let start = chars.len() - 3;
    tail.push(chars[start]);
    tail.push(chars[start + 1]);
    tail.push(chars[start + 2]);
    assert(tail@ =~= link@.subrange(link@.len() - 3, link@.len() as int));
    let text = string_of(tail.as_slice());
    parse_u64(text.as_str())
}

} // verus!
