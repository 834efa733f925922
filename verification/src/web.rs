//! What the bot takes out of the pages and feeds it fetches.

use crate::text::{chars_of, find, find_first, string_of};
use vstd::prelude::*;
use vstd::string::{StringExecFns, StringSliceAdditionalSpecFns};
use vstd::utf8::{
    encode_utf8, encode_utf8_valid_utf8, is_char_boundary,
    is_char_boundary_iff_not_is_continuation_byte, is_char_boundary_start_end_of_seq,
    valid_utf8_split,
};

verus! {

/// The date of a time stamp: what stands before its first `T`, or all of
/// it where there is none.
pub open spec fn date_part(time: Seq<char>) -> Seq<char> {
    match find_first(time, seq!['T']) {
        Some(i) => time.take(i),
        None => time,
    }
}

/// The time of a feed entry in a more pleasant form: `Date: ` and the date
/// of the time stamp.
pub fn format_rss_time(time: &str) -> (r: String)
    ensures
        r@ == "Date: "@ + date_part(time@),
{
    let mut chars = chars_of(time);
    let mut mark: Vec<char> = Vec::new();
    mark.push('T');
    assert(mark@ =~= seq!['T']);
    match find(chars.as_slice(), mark.as_slice()) {
        Some(index) => {
            chars.truncate(index);
            assert(chars@ =~= time@.take(index as int));
        },
        None => {},
    }
    let date = string_of(chars.as_slice());
    let mut r = String::from_str("Date: ");
    r.append(date.as_str());
    r
}

/// The bytes `from..to` of a text, as a text. Both ends must lie within
/// the text and on character boundaries.
fn byte_range(html: &str, from: usize, to: usize) -> (r: String)
    requires
        from <= to <= html.spec_bytes().len(),
        is_char_boundary(html.spec_bytes(), from as int),
        is_char_boundary(html.spec_bytes(), to as int),
    ensures
        encode_utf8(r@) == html.spec_bytes().subrange(from as int, to as int),
{
    let ghost bytes = html.spec_bytes();
    proof {
        encode_utf8_valid_utf8(html@);
        valid_utf8_split(bytes, to as int);
    }
    let (front, _) = html.split_at(to);
    proof {
        let head = bytes.subrange(0, to as int);
        assert(front.spec_bytes() == head);
        if from < to {
            if 0 < from {
                is_char_boundary_iff_not_is_continuation_byte(bytes, from as int);
                is_char_boundary_iff_not_is_continuation_byte(head, from as int);
            }
        } else {
            is_char_boundary_start_end_of_seq(head);
        }
    }
    let (_, part) = front.split_at(from);
    proof {
        assert(part.spec_bytes() =~= bytes.subrange(from as int, to as int));
    }
    part.to_owned()
}

/// The stable version on the home page: the seven bytes that start eight
/// bytes after `loc`, where the page says `Stable:`.
pub fn get_stable_version_string(loc: usize, html: &str) -> (r: String)
    requires
        loc + 15 <= html.spec_bytes().len(),
        is_char_boundary(html.spec_bytes(), loc + 8),
        is_char_boundary(html.spec_bytes(), loc + 15),
    ensures
        encode_utf8(r@) == html.spec_bytes().subrange(loc + 8, loc + 15),
{
    let n = html.as_bytes().len();
    assert(n == html.spec_bytes().len());
    byte_range(html, loc + 8, loc + 15)
}

/// The experimental version on the home page: the seven bytes that start
/// fourteen bytes after `loc`, where the page says `Experimental:`.
pub fn get_experimental_version_string(loc: usize, html: &str) -> (r: String)
    requires
        loc + 21 <= html.spec_bytes().len(),
        is_char_boundary(html.spec_bytes(), loc + 14),
        is_char_boundary(html.spec_bytes(), loc + 21),
    ensures
        encode_utf8(r@) == html.spec_bytes().subrange(loc + 14, loc + 21),
{
    let n = html.as_bytes().len();
    assert(n == html.spec_bytes().len());
    byte_range(html, loc + 14, loc + 21)
}

/// Whether the bytes `from..to` of a text can be taken out as a text.
pub open spec fn sliceable(html: &str, from: int, to: int) -> bool {
    &&& from <= to <= html.spec_bytes().len()
    &&& is_char_boundary(html.spec_bytes(), from)
    &&& is_char_boundary(html.spec_bytes(), to)
}

/// Whether the bytes `from..to` of a text can be taken out as a text.
fn can_slice(html: &str, from: usize, to: usize) -> (b: bool)
    requires
        from <= to,
    ensures
        b == sliceable(html, from as int, to as int),
{
    to <= html.as_bytes().len() && html.is_char_boundary(from) && html.is_char_boundary(to)
}

/// The stable version on the home page, where the page says `Stable:` at
/// `loc`; nothing where the page ends before the version does, or the
/// version would start or end inside a character.
pub fn stable_version_at(loc: usize, html: &str) -> (r: Option<String>)
    ensures
        match r {
            Some(version) => sliceable(html, loc + 8, loc + 15) && encode_utf8(version@)
                == html.spec_bytes().subrange(loc + 8, loc + 15),
            None => !sliceable(html, loc + 8, loc + 15),
        },
{
    let n = html.as_bytes().len();
    assert(n == html.spec_bytes().len());
    if loc <= usize::MAX - 15 && can_slice(html, loc + 8, loc + 15) {
        Some(get_stable_version_string(loc, html))
    } else {
        None
    }
}

/// The experimental version on the home page, where the page says
/// `Experimental:` at `loc`; nothing where the page ends before the version
/// does, or the version would start or end inside a character.
pub fn experimental_version_at(loc: usize, html: &str) -> (r: Option<String>)
    ensures
        match r {
            Some(version) => sliceable(html, loc + 14, loc + 21) && encode_utf8(version@)
                == html.spec_bytes().subrange(loc + 14, loc + 21),
            None => !sliceable(html, loc + 14, loc + 21),
        },
{
    let n = html.as_bytes().len();
    assert(n == html.spec_bytes().len());
    if loc <= usize::MAX - 21 && can_slice(html, loc + 14, loc + 21) {
        Some(get_experimental_version_string(loc, html))
    } else {
        None
    }
}

} // verus!
