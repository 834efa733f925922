//! What the mod portal says of a mod and of a modder, made ready to show.

use crate::decimal::{decimal, digits};
use crate::document::{
    blank, is_blank, is_null, items, items_of, mantissa, mantissa_of, member, member_of, null, show,
    shown, text, text_of,
};
use crate::store::text_view;
use crate::text::{chars_of, find, find_first, replace_char, string_of, with_replaced};
use json::JsonValue;
use vstd::prelude::*;
use vstd::string::StringExecFns;

verus! {

/// What the portal says of one mod, as plain values.
#[derive(Debug, Clone, PartialEq, Eq)]
pub struct ModRecord {
    /// The number of downloads; nothing where the portal gives no number.
    pub downloads_count: Option<u64>,
    /// The address of the thumb image; nothing where the mod has no media.
    pub thumb: Option<String>,
    /// The home page; nothing where it is null or empty.
    pub homepage: Option<String>,
    /// The path of the source on GitHub; nothing where it is null or empty.
    pub github_path: Option<String>,
    /// The title of the first tag; nothing where the mod has no tags.
    pub tag: Option<String>,
    pub created_at: String,
    pub updated_at: String,
    /// The dependencies of the latest release; nothing where it names none.
    pub dependencies: Option<Vec<String>>,
    pub download_url: String,
    pub name: String,
    pub summary: String,
    pub owner: String,
    pub title: String,
    pub version: String,
    pub factorio_version: String,
}

/// A mod as it is shown.
#[derive(Debug, Clone, PartialEq, Eq)]
pub struct Mod {
    pub creation_date: String,
    pub last_updated: String,
    /// The thumb image of the mod.
    pub thumb: String,
    /// The internal name of the mod.
    pub name: String,
    pub author: String,
    pub link: String,
    pub download_count: u64,
    pub latest_version: String,
    /// The latest version of the game that the mod supports.
    pub factorio_version: String,
    pub source_path: String,
    pub homepage: String,
    pub dependencies: String,
    pub summary: String,
    /// The pretty title of the mod.
    pub title: String,
    /// The tag of the mod, if it has one.
    pub tag: Option<String>,
    /// A direct link to the newest version.
    pub download_link: String,
}

/// The day of a time stamp: what stands before its first space, or all of
/// it where there is none.
pub open spec fn day_of(stamp: Seq<char>) -> Seq<char> {
    match find_first(stamp, seq![' ']) {
        Some(i) => stamp.take(i),
        None => stamp,
    }
}

/// The thumb image to show: the mod's own, or the stock image.
pub open spec fn thumb_text(thumb: Option<Seq<char>>) -> Seq<char> {
    match thumb {
        Some(t) => t,
        None => "http://i.imgur.com/ckaei9P.png"@,
    }
}

/// The home page as a link, or `None`.
pub open spec fn homepage_text(homepage: Option<Seq<char>>) -> Seq<char> {
    match homepage {
        Some(h) => "[Home]("@ + h + ")"@,
        None => "None"@,
    }
}

/// The source as a link to GitHub, or `None`.
pub open spec fn source_text(github_path: Option<Seq<char>>) -> Seq<char> {
    match github_path {
        Some(g) => "[Source](https://github.com/"@ + g + ")"@,
        None => "None"@,
    }
}

/// Whether a dependency is optional: it starts with a question mark.
pub open spec fn optional(dependency: Seq<char>) -> bool {
    dependency.len() > 0 && dependency[0] == '?'
}

/// The first `n` dependencies that are not optional, one on a line.
pub open spec fn required_lines(dependencies: Seq<Seq<char>>, n: int) -> Seq<char>
    decreases n,
{
    if n <= 0 {
        Seq::empty()
    } else if optional(dependencies[n - 1]) {
        required_lines(dependencies, n - 1)
    } else {
        required_lines(dependencies, n - 1) + dependencies[n - 1].push('\n')
    }
}

/// How many of the first `n` dependencies are optional.
pub open spec fn optional_count(dependencies: Seq<Seq<char>>, n: int) -> nat
    decreases n,
{
    if n <= 0 {
        0
    } else if optional(dependencies[n - 1]) {
        optional_count(dependencies, n - 1) + 1
    } else {
        optional_count(dependencies, n - 1)
    }
}

/// The dependencies as they are shown: the required ones, one on a line,
/// then the number of optional ones, if there are any.
pub open spec fn dependencies_text(dependencies: Option<Seq<Seq<char>>>) -> Seq<char> {
    match dependencies {
        None => "No dependencies."@,
        Some(d) => {
            let lines = required_lines(d, d.len() as int);
            let count = optional_count(d, d.len() as int);
            if count == 0 {
                lines
            } else if count == 1 {
                lines + "...and 1 optional dependency."@
            } else {
                lines + "...and "@ + digits(count) + " optional dependencies."@
            }
        },
    }
}

/// The page of a mod on the portal, with each space written as `%20`.
pub open spec fn link_text(owner: Seq<char>, name: Seq<char>) -> Seq<char> {
    with_replaced(
        "https://mods.factorio.com/mods/"@ + owner + "/"@ + name,
        ' ',
        seq!['%', '2', '0'],
    )
}

/// What a list of texts, or its absence, holds as a mathematical value.
pub open spec fn list_view(list: Option<Vec<String>>) -> Option<Seq<Seq<char>>> {
    match list {
        Some(l) => Some(l.deep_view()),
        None => None,
    }
}

/// A time stamp cut down to its day.
fn day(stamp: &str) -> (r: String)
    ensures
        r@ == day_of(stamp@),
{
    let mut chars = chars_of(stamp);
    let mut mark: Vec<char> = Vec::new();
    mark.push(' ');
    assert(mark@ =~= seq![' ']);
    match find(chars.as_slice(), mark.as_slice()) {
        Some(index) => {
            chars.truncate(index);
            assert(chars@ =~= stamp@.take(index as int));
        },
        None => {},
    }
    string_of(chars.as_slice())
}

/// The dependencies as they are shown.
fn dependencies_line(dependencies: &Option<Vec<String>>) -> (r: String)
    ensures
        r@ == dependencies_text(list_view(*dependencies)),
{
    match dependencies {
        None => String::from_str("No dependencies."),
        Some(list) => {
            let ghost d = list.deep_view();
            let mut lines = String::new();
            let mut count: usize = 0;
            let mut i: usize = 0;
            while i < list.len()
                invariant
                    i <= list@.len(),
                    d == list.deep_view(),
                    count <= i,
                    count == optional_count(d, i as int),
                    lines@ == required_lines(d, i as int),
                decreases list@.len() - i,
            {
                let dependency = chars_of(list[i].as_str());
                proof {
                    assert(d[i as int] == list@[i as int]@);
                }
                if dependency.len() > 0 && dependency[0] == '?' {
                    count = count + 1;
                } else {
                    lines.append(list[i].as_str());
                    lines.push('\n');
                }
                i = i + 1;
            }
            if count == 1 {
                lines.append("...and 1 optional dependency.");
            } else if count > 1 {
                lines.append("...and ");
                lines.append(decimal(count as u64).as_str());
                lines.append(" optional dependencies.");
            }
            lines
        },
    }
}

/// The page of a mod on the portal.
fn link(owner: &str, name: &str) -> (r: String)
    ensures
        r@ == link_text(owner@, name@),
{
    let mut plain = String::from_str("https://mods.factorio.com/mods/");
    plain.append(owner);
    plain.append("/");
    plain.append(name);
    let chars = chars_of(plain.as_str());
    let mut code: Vec<char> = Vec::new();
    code.push('%');
    code.push('2');
    code.push('0');
    assert(code@ =~= seq!['%', '2', '0']);
    let encoded = replace_char(chars.as_slice(), ' ', code.as_slice());
    string_of(encoded.as_slice())
}

impl Mod {
    /// The mod as it is shown, made of what the portal says of it; nothing
    /// where the portal gives no number of downloads.
    pub fn from_record(record: &ModRecord) -> (r: Option<Mod>)
        ensures
            r is Some <==> record.downloads_count is Some,
            r matches Some(m) ==> {
                &&& m.download_count == record.downloads_count->0
                &&& m.thumb@ == thumb_text(text_view(record.thumb))
                &&& m.homepage@ == homepage_text(text_view(record.homepage))
                &&& m.source_path@ == source_text(text_view(record.github_path))
                &&& text_view(m.tag) == text_view(record.tag)
                &&& m.creation_date@ == day_of(record.created_at@)
                &&& m.last_updated@ == day_of(record.updated_at@)
                &&& m.dependencies@ == dependencies_text(list_view(record.dependencies))
                &&& m.download_link@ == "https://mods.factorio.com"@ + record.download_url@
                &&& m.name@ == record.name@
                &&& m.summary@ == record.summary@
                &&& m.author@ == record.owner@
                &&& m.title@ == record.title@
                &&& m.latest_version@ == record.version@
                &&& m.factorio_version@ == record.factorio_version@
                &&& m.link@ == link_text(record.owner@, record.name@)
            },
    {
        let download_count = match record.downloads_count {
            Some(count) => count,
            None => {
                return None;
            },
        };
        let thumb = match &record.thumb {
            Some(t) => t.clone(),
            None => String::from_str("http://i.imgur.com/ckaei9P.png"),
        };
        let homepage = match &record.homepage {
            Some(h) => {
                let mut text = String::from_str("[Home](");
                text.append(h.as_str());
                text.append(")");
                text
            },
            None => String::from_str("None"),
        };
        let source_path = match &record.github_path {
            Some(g) => {
                let mut text = String::from_str("[Source](https://github.com/");
                text.append(g.as_str());
                text.append(")");
                text
            },
            None => String::from_str("None"),
        };
        let tag = match &record.tag {
            Some(t) => Some(t.clone()),
            None => None,
        };
        let mut download_link = String::from_str("https://mods.factorio.com");
        download_link.append(record.download_url.as_str());
        Some(
            Mod {
                creation_date: day(record.created_at.as_str()),
                last_updated: day(record.updated_at.as_str()),
                thumb,
                name: record.name.clone(),
                author: record.owner.clone(),
                link: link(record.owner.as_str(), record.name.as_str()),
                download_count,
                latest_version: record.version.clone(),
                factorio_version: record.factorio_version.clone(),
                source_path,
                homepage,
                dependencies: dependencies_line(&record.dependencies),
                summary: record.summary.clone(),
                title: record.title.clone(),
                tag,
                download_link,
            },
        )
    }

    /// The tag of the mod as it is shown: the tag, or `Not tagged.` for a
    /// mod without one.
    pub fn tag_line(&self) -> (line: String)
        ensures
            line@ == match self.tag {
                Some(tag) => tag@,
                None => "Not tagged."@,
            },
    {
        match &self.tag {
            Some(tag) => tag.clone(),
            None => String::from_str("Not tagged."),
        }
    }

    /// A copy of the mod.
    pub fn duplicate(&self) -> (copy: Mod)
        ensures
            copy == *self,
    {
        let tag = match &self.tag {
            Some(t) => Some(t.clone()),
            None => None,
        };
        Mod {
            creation_date: self.creation_date.clone(),
            last_updated: self.last_updated.clone(),
            thumb: self.thumb.clone(),
            name: self.name.clone(),
            author: self.author.clone(),
            link: self.link.clone(),
            download_count: self.download_count,
            latest_version: self.latest_version.clone(),
            factorio_version: self.factorio_version.clone(),
            source_path: self.source_path.clone(),
            homepage: self.homepage.clone(),
            dependencies: self.dependencies.clone(),
            summary: self.summary.clone(),
            title: self.title.clone(),
            tag,
            download_link: self.download_link.clone(),
        }
    }
}

/// The text of a field worth showing: what the value under `key` shows
/// as, unless the value is null or the empty string.
pub open spec fn filled_field(doc: JsonValue, key: Seq<char>) -> Option<Seq<char>> {
    let value = member_of(doc, key);
    if !null(value) && text_of(value) != Some(Seq::<char>::empty()) {
        Some(shown(value))
    } else {
        None
    }
}

/// The address of the thumb image that a mod's document gives, if the mod
/// has media.
pub open spec fn thumb_of(doc: JsonValue) -> Option<Seq<char>> {
    let media = member_of(doc, "first_media_file"@);
    if !null(media) {
        Some(shown(member_of(member_of(media, "urls"@), "thumb"@)))
    } else {
        None
    }
}

/// The title of the first tag that a mod's document gives, if it has tags.
/// Where the tags are no list, the title shows as `null`.
pub open spec fn tag_of(doc: JsonValue) -> Option<Seq<char>> {
    let tags = member_of(doc, "tags"@);
    if !blank(tags) && !null(tags) {
        if items_of(tags).len() > 0 {
            Some(shown(member_of(items_of(tags)[0], "title"@)))
        } else {
            Some("null"@)
        }
    } else {
        None
    }
}

/// The document of the dependencies in a mod's document.
pub open spec fn dependencies_doc(doc: JsonValue) -> JsonValue {
    member_of(member_of(member_of(doc, "latest_release"@), "info_json"@), "dependencies"@)
}

/// The dependencies that a mod's document gives, each as it shows, if it
/// names any.
pub open spec fn dependencies_of(doc: JsonValue) -> Option<Seq<Seq<char>>> {
    let list = dependencies_doc(doc);
    if !null(list) && !blank(list) {
        Some(Seq::new(items_of(list).len(), |i: int| shown(items_of(list)[i])))
    } else {
        None
    }
}

/// What a field of the latest release shows as.
pub open spec fn release_field(doc: JsonValue, key: Seq<char>) -> Seq<char> {
    shown(member_of(member_of(doc, "latest_release"@), key))
}

/// Whether `record` is what a mod's document says of the mod.
pub open spec fn record_reads(record: ModRecord, doc: JsonValue) -> bool {
    &&& record.downloads_count == mantissa_of(member_of(doc, "downloads_count"@))
    &&& text_view(record.thumb) == thumb_of(doc)
    &&& text_view(record.homepage) == filled_field(doc, "homepage"@)
    &&& text_view(record.github_path) == filled_field(doc, "github_path"@)
    &&& text_view(record.tag) == tag_of(doc)
    &&& record.created_at@ == shown(member_of(doc, "created_at"@))
    &&& record.updated_at@ == shown(member_of(doc, "updated_at"@))
    &&& list_view(record.dependencies) == dependencies_of(doc)
    &&& record.download_url@ == release_field(doc, "download_url"@)
    &&& record.name@ == shown(member_of(doc, "name"@))
    &&& record.summary@ == shown(member_of(doc, "summary"@))
    &&& record.owner@ == shown(member_of(doc, "owner"@))
    &&& record.title@ == shown(member_of(doc, "title"@))
    &&& record.version@ == release_field(doc, "version"@)
    &&& record.factorio_version@ == release_field(doc, "factorio_version"@)
}

/// Reads a field worth showing.
fn read_filled(doc: &JsonValue, key: &str) -> (r: Option<String>)
    ensures
        text_view(r) == filled_field(*doc, key@),
{
    let value = member(doc, key);
    if is_null(value) {
        return None;
    }
    let empty = match text(value) {
        Some(t) => t.as_str().is_empty(),
        None => false,
    };
    if empty {
        assert(text_of(*value)->0 =~= Seq::<char>::empty());
        None
    } else {
        Some(show(value))
    }
}

/// Reads the title of the first tag.
fn read_tag(doc: &JsonValue) -> (r: Option<String>)
    ensures
        text_view(r) == tag_of(*doc),
{
    let tags = member(doc, "tags");
    if !is_blank(tags) && !is_null(tags) {
        let list = items(tags);
        if list.len() > 0 {
            Some(show(member(list[0], "title")))
        } else {
            Some(String::from_str("null"))
        }
    } else {
        None
    }
}

/// Reads the dependencies of the latest release.
fn read_dependencies(doc: &JsonValue) -> (r: Option<Vec<String>>)
    ensures
        list_view(r) == dependencies_of(*doc),
{
    let list = member(member(member(doc, "latest_release"), "info_json"), "dependencies");
    if !is_null(list) && !is_blank(list) {
        let members = items(list);
        let mut shown_members: Vec<String> = Vec::new();
        let mut i: usize = 0;
        while i < members.len()
            invariant
                i <= members@.len(),
                members@.len() == items_of(*list).len(),
                forall|j: int| 0 <= j < members@.len() ==> *members@[j] == items_of(*list)[j],
                shown_members@.len() == i,
                forall|j: int| 0 <= j < i ==> (#[trigger] shown_members@[j])@ == shown(items_of(*list)[j]),
            decreases members@.len() - i,
        {
            shown_members.push(show(members[i]));
            i = i + 1;
        }
        assert(shown_members.deep_view() =~= Seq::new(
            items_of(*list).len(),
            |i: int| shown(items_of(*list)[i]),
        ));
        Some(shown_members)
    } else {
        None
    }
}

/// Reads what a mod's document says of the mod.
pub fn read_mod_record(json: &JsonValue) -> (record: ModRecord)
    ensures
        record_reads(record, *json),
{
    let media = member(json, "first_media_file");
    let thumb = if !is_null(media) {
        Some(show(member(member(media, "urls"), "thumb")))
    } else {
        None
    };
    let release = member(json, "latest_release");
    ModRecord {
        downloads_count: mantissa(member(json, "downloads_count")),
        thumb,
        homepage: read_filled(json, "homepage"),
        github_path: read_filled(json, "github_path"),
        tag: read_tag(json),
        created_at: show(member(json, "created_at")),
        updated_at: show(member(json, "updated_at")),
        dependencies: read_dependencies(json),
        download_url: show(member(release, "download_url")),
        name: show(member(json, "name")),
        summary: show(member(json, "summary")),
        owner: show(member(json, "owner")),
        title: show(member(json, "title")),
        version: show(member(release, "version")),
        factorio_version: show(member(release, "factorio_version")),
    }
}

/// Whether `m` is the mod, as it is shown, that a document stands for.
pub open spec fn mod_shows(m: Mod, doc: JsonValue) -> bool {
    &&& Some(m.download_count) == mantissa_of(member_of(doc, "downloads_count"@))
    &&& m.thumb@ == thumb_text(thumb_of(doc))
    &&& m.homepage@ == homepage_text(filled_field(doc, "homepage"@))
    &&& m.source_path@ == source_text(filled_field(doc, "github_path"@))
    &&& text_view(m.tag) == tag_of(doc)
    &&& m.creation_date@ == day_of(shown(member_of(doc, "created_at"@)))
    &&& m.last_updated@ == day_of(shown(member_of(doc, "updated_at"@)))
    &&& m.dependencies@ == dependencies_text(dependencies_of(doc))
    &&& m.download_link@ == "https://mods.factorio.com"@ + release_field(doc, "download_url"@)
    &&& m.name@ == shown(member_of(doc, "name"@))
    &&& m.summary@ == shown(member_of(doc, "summary"@))
    &&& m.author@ == shown(member_of(doc, "owner"@))
    &&& m.title@ == shown(member_of(doc, "title"@))
    &&& m.latest_version@ == release_field(doc, "version"@)
    &&& m.factorio_version@ == release_field(doc, "factorio_version"@)
    &&& m.link@ == link_text(shown(member_of(doc, "owner"@)), shown(member_of(doc, "name"@)))
}

/// Whether a document gives a number of downloads.
pub open spec fn counts_downloads(doc: JsonValue) -> bool {
    mantissa_of(member_of(doc, "downloads_count"@)) is Some
}

/// Turns the document of a mod, as the portal gives it for the mod itself
/// or among the results of a search, into the mod as it is shown. Nothing
/// where the document gives no number of downloads.
pub fn parse_json_into_mod(json: &JsonValue) -> (r: Option<Mod>)
    ensures
        r is Some <==> counts_downloads(*json),
        r matches Some(m) ==> mod_shows(m, *json),
{
    let record = read_mod_record(json);
    Mod::from_record(&record)
}

/// What the number of downloads of a mod earns it.
pub open spec fn mod_popularity_text(downloads: u64) -> Seq<char> {
    if downloads <= 50 {
        ":asterisk: New mod! :asterisk:"@
    } else if downloads <= 200 {
        ":seedling: Gathering a following... :seedling:"@
    } else if downloads <= 1000 {
        ":third_place: A decent amount of downloads. :third_place:"@
    } else if downloads <= 2000 {
        ":second_place: Pretty popular! :second_place:"@
    } else if downloads <= 5000 {
        ":first_place: Very very popular! :first_place:"@
    } else if downloads <= 10000 {
        ":heart: Extremely popular! :heart:"@
    } else if 100001 <= downloads <= 105000 {
        ":military_medal: Beloved by the community! :military_medal:"@
    } else if 105001 <= downloads <= 200000 {
        ":medal: Nearing the Hall of Fame! :medal:"@
    } else {
        ":trophy: Hall of Fame! :trophy:"@
    }
}

/// What the number of downloads of a mod earns it. Between ten thousand
/// and a hundred thousand, and beyond two hundred thousand, it is the Hall
/// of Fame.
pub fn mod_popularity(downloads: u64) -> (label: &'static str)
    ensures
        label@ == mod_popularity_text(downloads),
{
    if downloads <= 50 {
        ":asterisk: New mod! :asterisk:"
    } else if downloads <= 200 {
        ":seedling: Gathering a following... :seedling:"
    } else if downloads <= 1000 {
        ":third_place: A decent amount of downloads. :third_place:"
    } else if downloads <= 2000 {
        ":second_place: Pretty popular! :second_place:"
    } else if downloads <= 5000 {
        ":first_place: Very very popular! :first_place:"
    } else if downloads <= 10000 {
        ":heart: Extremely popular! :heart:"
    } else if 100001 <= downloads && downloads <= 105000 {
        ":military_medal: Beloved by the community! :military_medal:"
    } else if 105001 <= downloads && downloads <= 200000 {
        ":medal: Nearing the Hall of Fame! :medal:"
    } else {
        ":trophy: Hall of Fame! :trophy:"
    }
}

} // verus!
