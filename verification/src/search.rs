//! The results of a search on the mod portal, as one text.

use crate::decimal::{decimal, digits};
use crate::text::{chars_of, replace_char, string_of, with_replaced};
use vstd::prelude::*;
use vstd::string::StringExecFns;

verus! {

/// How a result of a search stands to the current version of the game.
#[derive(Debug, Clone, Copy, PartialEq, Eq, Structural)]
pub enum Standing {
    /// The version that the result names is not complete: the result is
    /// passed over.
    Incomplete,
    /// The result is for an older version: it is counted, not listed.
    Outdated,
    /// The result is for the current stable version or a later one.
    Current,
}

/// One result of a search on the portal.
#[derive(Debug, Clone, PartialEq, Eq)]
pub struct SearchEntry {
    pub title: String,
    pub owner: String,
    pub name: String,
    pub standing: Standing,
}

/// At most the first ten of `n` results count.
pub open spec fn counted(n: int) -> int {
    if n < 10 {
        n
    } else {
        10
    }
}

/// The line for one result: its title as a link to its page, and its
/// owner.
pub open spec fn result_line(entry: SearchEntry) -> Seq<char> {
    "- ["@ + entry.title@ + "](https://mods.factorio.com/mods/"@ + entry.owner@ + "/"@
        + with_replaced(entry.name@, ' ', seq!['%', '2', '0']) + ") by "@ + entry.owner@ + "\n"@
}

/// The lines for the current ones among the first `n` results.
pub open spec fn result_lines(results: Seq<SearchEntry>, n: int) -> Seq<char>
    decreases n,
{
    if n <= 0 {
        Seq::empty()
    } else if results[n - 1].standing == Standing::Current {
        result_lines(results, n - 1) + result_line(results[n - 1])
    } else {
        result_lines(results, n - 1)
    }
}

/// How many of the first `n` results are outdated.
pub open spec fn outdated_count(results: Seq<SearchEntry>, n: int) -> nat
    decreases n,
{
    if n <= 0 {
        0
    } else if results[n - 1].standing == Standing::Outdated {
        outdated_count(results, n - 1) + 1
    } else {
        outdated_count(results, n - 1)
    }
}

/// The results of a search as text: the lines of the current ones among
/// the first ten, then the number of outdated ones among them; where none
/// is current, that and the number.
pub open spec fn search_results_text(results: Seq<SearchEntry>) -> Seq<char> {
    let n = counted(results.len() as int);
    let lines = result_lines(results, n);
    let outdated = digits(outdated_count(results, n));
    if lines.len() == 0 {
        "No results for current factorio stable version or higher.\n                \n"@ + outdated
            + " outdated mods were found."@
    } else {
        lines + "\n...and "@ + outdated + " outdated mod(s)."@
    }
}

/// The results of a search as text.
pub fn serialize_search_results(results: &Vec<SearchEntry>) -> (text: String)
    ensures
        text@ == search_results_text(results@),
{
    let n: usize = if results.len() < 10 {
        results.len()
    } else {
        10
    };
    let mut lines = String::new();
    let mut outdated: u64 = 0;
    let mut i: usize = 0;
    let mut code: Vec<char> = Vec::new();
    code.push('%');
    code.push('2');
    code.push('0');
    assert(code@ =~= seq!['%', '2', '0']);
    while i < n
        invariant
            i <= n <= 10,
            n <= results@.len(),
            code@ == seq!['%', '2', '0'],
            outdated == outdated_count(results@, i as int),
            outdated <= i,
            lines@ == result_lines(results@, i as int),
        decreases n - i,
    {
        let entry = &results[i];
        match entry.standing {
            Standing::Incomplete => {},
            Standing::Outdated => {
                outdated = outdated + 1;
            },
            Standing::Current => {
                let name = chars_of(entry.name.as_str());
                let encoded = string_of(
                    replace_char(name.as_slice(), ' ', code.as_slice()).as_slice(),
                );
                let ghost before = lines@;
                lines.append("- [");
                lines.append(entry.title.as_str());
                lines.append("](https://mods.factorio.com/mods/");
                lines.append(entry.owner.as_str());
                lines.append("/");
                lines.append(encoded.as_str());
                lines.append(") by ");
                lines.append(entry.owner.as_str());
                lines.append("\n");
                assert(lines@ =~= before + result_line(*entry));
            },
        }
        i = i + 1;
    }
    let count = decimal(outdated);
    if lines.as_str().is_empty() {
        let mut text = String::from_str(
            "No results for current factorio stable version or higher.\n                \n",
        );
        text.append(count.as_str());
        text.append(" outdated mods were found.");
        text
    } else {
        lines.append("\n...and ");
        lines.append(count.as_str());
        lines.append(" outdated mod(s).");
        lines
    }
}

} // verus!
