//! Reading one desktop-entry text: the INI document is parsed by an outside
//! crate behind a single trusted wrapper, and an [`Entry`] is then built from
//! the returned key/value pairs by verified code.

use crate::entry::Entry;
use crate::entry::EntryView;
use crate::strcmp::str_eq;
use vstd::prelude::*;
use vstd::string::StringExecFns;

verus! {

/// The key/value pairs, in file order, of the section named `section` of the
/// INI document written as `text`; `None` when the text does not parse as an
/// INI document or holds no such section.  The result depends on the two
/// arguments alone.
pub uninterp spec fn ini_section_of(text: Seq<char>, section: Seq<char>) -> Option<
    Seq<(Seq<char>, Seq<char>)>,
>;

/// Relies on `ini::Ini::load_from_str` and `ini::Ini::section`: parses INI
/// text and hands back the key/value pairs of the named section in order,
/// or `None` when the text does not parse or has no such section.
#[verifier::external_body]
fn read_section(text: &str, section: &str) -> (r: Option<Vec<(String, String)>>)
    ensures
        r.deep_view() == ini_section_of(text@, section@),
{
    match ini::Ini::load_from_str(text) {
        Ok(doc) => doc.section(Some(section)).map(
            |p| p.iter().map(|(k, v)| (k.to_string(), v.to_string())).collect(),
        ),
        Err(_) => None,
    }
}

/// The first value bound to `key` among the pairs, if any: the lookup the
/// parser performs for each recognized key.
pub open spec fn lookup(pairs: Seq<(Seq<char>, Seq<char>)>, key: Seq<char>) -> Option<Seq<char>>
    decreases pairs.len(),
{
    if pairs.len() == 0 {
        None
    } else if pairs[0].0 == key {
        Some(pairs[0].1)
    } else {
        lookup(pairs.skip(1), key)
    }
}

/// `lookup`, with a missing key defaulting to the empty string.
pub open spec fn lookup_or_empty(pairs: Seq<(Seq<char>, Seq<char>)>, key: Seq<char>) -> Seq<char> {
    match lookup(pairs, key) {
        Some(v) => v,
        None => Seq::<char>::empty(),
    }
}

/// A boolean key holds exactly when its first value is the string `true`.
pub open spec fn lookup_is_true(pairs: Seq<(Seq<char>, Seq<char>)>, key: Seq<char>) -> bool {
    lookup(pairs, key) == Some("true"@)
}

/// The entry a `Desktop Entry` section denotes: `Type` and `Name` default to
/// the empty string, the three booleans to `false`, and `Exec` and `URL` stay
/// absent when their keys are missing.
pub open spec fn entry_of_section(pairs: Seq<(Seq<char>, Seq<char>)>) -> EntryView {
    EntryView {
        entry_type: lookup_or_empty(pairs, "Type"@),
        name: lookup_or_empty(pairs, "Name"@),
        no_display: lookup_is_true(pairs, "NoDisplay"@),
        hidden: lookup_is_true(pairs, "Hidden"@),
        exec_cmd: lookup(pairs, "Exec"@),
        url: lookup(pairs, "URL"@),
        term: lookup_is_true(pairs, "Terminal"@),
    }
}

/// The entry the text denotes, or `None` on any parse failure.
pub open spec fn parse_view(text: Seq<char>) -> Option<EntryView> {
    match ini_section_of(text, "Desktop Entry"@) {
        Some(pairs) => Some(entry_of_section(pairs)),
        None => None,
    }
}

/// First value bound to `key`, proved against `lookup`.
fn find_value(pairs: &Vec<(String, String)>, key: &str) -> (r: Option<String>)
    ensures
        r.deep_view() == lookup(pairs.deep_view(), key@),
{
    let mut i: usize = 0;
    proof {
        assert(pairs.deep_view().skip(0) =~= pairs.deep_view());
    }
    while i < pairs.len()
        invariant
            i <= pairs.len(),
            pairs.deep_view().len() == pairs.len(),
            lookup(pairs.deep_view(), key@) == lookup(pairs.deep_view().skip(i as int), key@),
        decreases pairs.len() - i,
    {
        let ghost rest = pairs.deep_view().skip(i as int);
        proof {
            assert(rest[0] == pairs.deep_view()[i as int]);
            assert(rest.skip(1) =~= pairs.deep_view().skip(i as int + 1));
        }
        if str_eq(pairs[i].0.as_str(), key) {
            return Some(pairs[i].1.clone());
        }
        i = i + 1;
    }
    proof {
        assert(pairs.deep_view().skip(pairs.len() as int) =~= Seq::<(Seq<char>, Seq<char>)>::empty());
    }
    None
}

/// `find_value`, with a missing key defaulting to the empty string.
fn find_value_or_empty(pairs: &Vec<(String, String)>, key: &str) -> (r: String)
    ensures
        r@ == lookup_or_empty(pairs.deep_view(), key@),
{
    match find_value(pairs, key) {
        Some(v) => v,
        None => String::new(),
    }
}

/// Whether the first value bound to `key` is the string `true`.
fn find_value_is_true(pairs: &Vec<(String, String)>, key: &str) -> (r: bool)
    ensures
        r == lookup_is_true(pairs.deep_view(), key@),
{
    match find_value(pairs, key) {
        Some(v) => str_eq(v.as_str(), "true"),
        None => false,
    }
}

/// Build the entry a `Desktop Entry` section denotes, proved against
/// `entry_of_section`.
pub fn entry_from_section(pairs: &Vec<(String, String)>) -> (e: Entry)
    ensures
        e@ == entry_of_section(pairs.deep_view()),
{
    Entry {
        entry_type: find_value_or_empty(pairs, "Type"),
        name: find_value_or_empty(pairs, "Name"),
        no_display: find_value_is_true(pairs, "NoDisplay"),
        hidden: find_value_is_true(pairs, "Hidden"),
        exec_cmd: find_value(pairs, "Exec"),
        url: find_value(pairs, "URL"),
        term: find_value_is_true(pairs, "Terminal"),
    }
}

/// Parse one desktop-entry text: locate the `Desktop Entry` section and build
/// the entry it denotes, or return `None` on any parse failure.
pub fn parse_entry(text: &str) -> (r: Option<Entry>)
    ensures
        r matches Some(e) ==> parse_view(text@) == Some(e@),
        r is None ==> parse_view(text@) is None,
{
    match read_section(text, "Desktop Entry") {
        Some(pairs) => Some(entry_from_section(&pairs)),
        None => None,
    }
}

} // verus!
