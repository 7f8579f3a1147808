//! The data model: one launcher entry, and the environment-derived
//! configuration that resolution consults.

use vstd::prelude::*;
use vstd::string::StringExecFns;

verus! {

/// One discovered application-or-link launcher definition.
///
/// An `Entry` is immutable once constructed.  `name` is the lookup and sort
/// key; `hidden` and `no_display` control catalog visibility; `exec` is the
/// command template of an `Application` entry and `url` the target of a
/// `Link` entry, each present only when the corresponding key was present
/// in the source file.
pub struct Entry {
    pub entry_type: String,
    pub name: String,
    pub no_display: bool,
    pub hidden: bool,
    pub exec_cmd: Option<String>,
    pub url: Option<String>,
    pub term: bool,
}

/// The mathematical image of an [`Entry`]: each string as its character
/// sequence.
pub struct EntryView {
    pub entry_type: Seq<char>,
    pub name: Seq<char>,
    pub no_display: bool,
    pub hidden: bool,
    pub exec_cmd: Option<Seq<char>>,
    pub url: Option<Seq<char>>,
    pub term: bool,
}

impl View for Entry {
    type V = EntryView;

    open spec fn view(&self) -> EntryView {
        EntryView {
            entry_type: self.entry_type@,
            name: self.name@,
            no_display: self.no_display,
            hidden: self.hidden,
            exec_cmd: self.exec_cmd.deep_view(),
            url: self.url.deep_view(),
            term: self.term,
        }
    }
}

/// The views of a sequence of entries.
pub open spec fn views(s: Seq<Entry>) -> Seq<EntryView> {
    s.map_values(|e: Entry| e@)
}

/// An entry belongs in the catalog iff it is neither hidden nor barred from
/// display and its type is one of the two the dispatcher supports.
pub open spec fn visible(e: EntryView) -> bool {
    &&& !e.hidden
    &&& !e.no_display
    &&& (e.entry_type == "Application"@ || e.entry_type == "Link"@)
}

/// The three resolution prefixes, assembled once at process start from the
/// environment and passed into dispatch, so that no ambient reads are
/// scattered through the logic.
pub struct Config {
    pub term_prefix: String,
    pub app_prefix: String,
    pub url_prefix: String,
}

/// The mathematical image of a [`Config`].
pub struct ConfigView {
    pub term_prefix: Seq<char>,
    pub app_prefix: Seq<char>,
    pub url_prefix: Seq<char>,
}

impl View for Config {
    type V = ConfigView;

    open spec fn view(&self) -> ConfigView {
        ConfigView {
            term_prefix: self.term_prefix@,
            app_prefix: self.app_prefix@,
            url_prefix: self.url_prefix@,
        }
    }
}

/// A set application or terminal prefix gains a trailing space; an unset one
/// is the empty string.
pub open spec fn spec_prefix(v: Option<Seq<char>>) -> Seq<char> {
    match v {
        Some(s) => s + " "@,
        None => Seq::<char>::empty(),
    }
}

/// A set link prefix gains a trailing space; an unset one defaults to
/// `"xdg-open "`.
pub open spec fn spec_url_prefix(v: Option<Seq<char>>) -> Seq<char> {
    match v {
        Some(s) => s + " "@,
        None => "xdg-open "@,
    }
}

fn prefix_of(v: Option<String>) -> (r: String)
    ensures
        r@ == spec_prefix(v.deep_view()),
{
    match v {
        Some(s) => s.concat(" "),
        None => String::new(),
    }
}

fn url_prefix_of(v: Option<String>) -> (r: String)
    ensures
        r@ == spec_url_prefix(v.deep_view()),
{
    match v {
        Some(s) => s.concat(" "),
        None => String::from_str("xdg-open "),
    }
}

impl Config {
    /// Build the configuration from the raw values of the three environment
    /// variables, `None` standing for an unset one.
    pub fn from_env_values(term: Option<String>, app: Option<String>, url: Option<String>) -> (c:
        Config)
        ensures
            c@.term_prefix == spec_prefix(term.deep_view()),
            c@.app_prefix == spec_prefix(app.deep_view()),
            c@.url_prefix == spec_url_prefix(url.deep_view()),
    {
        Config {
            term_prefix: prefix_of(term),
            app_prefix: prefix_of(app),
            url_prefix: url_prefix_of(url),
        }
    }
}

} // verus!
