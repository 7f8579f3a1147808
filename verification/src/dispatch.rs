//! The command dispatcher: interpret the positional arguments against the
//! catalog and decide what to print, or which error to signal.
//!
//! The dispatcher only ever emits a command line as text; spawning the
//! process named by it is its caller's business.

use crate::entry::Config;
use crate::entry::ConfigView;
use crate::entry::Entry;
use crate::entry::EntryView;
use crate::entry::spec_url_prefix;
use crate::entry::views;
use crate::fields::subst;
use crate::fields::substitute;
use crate::strcmp::str_eq;
use vstd::prelude::*;
use vstd::string::StringExecFns;

verus! {

/// What one invocation should do, decided from the catalog and arguments.
pub enum Outcome {
    /// No argument: print every entry's name, one per line, and exit 0.
    Names(Vec<String>),
    /// A match was resolved: print this line and exit 0.
    Line(String),
    /// The first matching entry has an unsupported type (carried here):
    /// report it on the error stream and stop; no later entry is tried.
    Unsupported(String),
    /// The first matching entry lacks the field its type needs (`Exec` for
    /// an application, `URL` for a link): resolution cannot proceed.
    Incomplete,
    /// No catalog entry bears the requested name: report it and exit 2.
    NoMatch,
    /// More than two positional arguments: print usage and exit 1.
    Usage,
}

/// The mathematical image of an [`Outcome`].
pub enum OutcomeView {
    Names(Seq<Seq<char>>),
    Line(Seq<char>),
    Unsupported(Seq<char>),
    Incomplete,
    NoMatch,
    Usage,
}

impl View for Outcome {
    type V = OutcomeView;

    open spec fn view(&self) -> OutcomeView {
        match self {
            Outcome::Names(ns) => OutcomeView::Names(ns.deep_view()),
            Outcome::Line(l) => OutcomeView::Line(l@),
            Outcome::Unsupported(t) => OutcomeView::Unsupported(t@),
            Outcome::Incomplete => OutcomeView::Incomplete,
            Outcome::NoMatch => OutcomeView::NoMatch,
            Outcome::Usage => OutcomeView::Usage,
        }
    }
}

/// The names of the entries, in catalog order.
pub open spec fn names_of(cat: Seq<EntryView>) -> Seq<Seq<char>> {
    cat.map_values(|e: EntryView| e.name)
}

/// The first entry bearing `name`, scanning the catalog in order.
pub open spec fn first_match(cat: Seq<EntryView>, name: Seq<char>) -> Option<EntryView>
    decreases cat.len(),
{
    if cat.len() == 0 {
        None
    } else if cat[0].name == name {
        Some(cat[0])
    } else {
        first_match(cat.skip(1), name)
    }
}

/// How one matched entry resolves: an application line is its prefix (the
/// terminal one iff `term` is set) followed by the substituted template; a
/// link line is the URL prefix followed by the target; any other type is
/// reported as unsupported.
pub open spec fn spec_resolve(e: EntryView, arg: Seq<char>, cfg: ConfigView) -> OutcomeView {
    if e.entry_type == "Application"@ {
        match e.exec_cmd {
            Some(t) => OutcomeView::Line(
                (if e.term {
                    cfg.term_prefix
                } else {
                    cfg.app_prefix
                }) + subst(t, arg),
            ),
            None => OutcomeView::Incomplete,
        }
    } else if e.entry_type == "Link"@ {
        match e.url {
            Some(u) => OutcomeView::Line(cfg.url_prefix + u),
            None => OutcomeView::Incomplete,
        }
    } else {
        OutcomeView::Unsupported(e.entry_type)
    }
}

/// The dispatcher's whole behaviour: list on no argument, resolve the first
/// match on one or two (the second being the field-code substitution, empty
/// when absent), report a miss, and reject any longer argument list.
pub open spec fn spec_dispatch(cat: Seq<EntryView>, args: Seq<Seq<char>>, cfg: ConfigView) -> OutcomeView {
    if args.len() == 0 {
        OutcomeView::Names(names_of(cat))
    } else if args.len() <= 2 {
        let arg = if args.len() == 2 {
            args[1]
        } else {
            Seq::<char>::empty()
        };
        match first_match(cat, args[0]) {
            Some(e) => spec_resolve(e, arg, cfg),
            None => OutcomeView::NoMatch,
        }
    } else {
        OutcomeView::Usage
    }
}

/// Resolve one matched entry, proved against `spec_resolve`.
pub fn resolve(e: &Entry, arg: &str, cfg: &Config) -> (r: Outcome)
    ensures
        r@ == spec_resolve(e@, arg@, cfg@),
{
    if str_eq(e.entry_type.as_str(), "Application") {
        match &e.exec_cmd {
            Some(t) => {
                let body = substitute(t.as_str(), arg);
                let prefix = if e.term {
                    cfg.term_prefix.clone()
                } else {
                    cfg.app_prefix.clone()
                };
                Outcome::Line(prefix.concat(body.as_str()))
            },
            None => Outcome::Incomplete,
        }
    } else if str_eq(e.entry_type.as_str(), "Link") {
        match &e.url {
            Some(u) => Outcome::Line(cfg.url_prefix.clone().concat(u.as_str())),
            None => Outcome::Incomplete,
        }
    } else {
        Outcome::Unsupported(e.entry_type.clone())
    }
}

/// Decide the outcome for one invocation, proved against `spec_dispatch`.
pub fn dispatch(cat: &Vec<Entry>, args: &Vec<String>, cfg: &Config) -> (r: Outcome)
    ensures
        r@ == spec_dispatch(views(cat@), args.deep_view(), cfg@),
{
    if args.len() == 0 {
        let mut names: Vec<String> = Vec::new();
        let mut i: usize = 0;
        while i < cat.len()
            invariant
                i <= cat.len(),
                names@.len() == i,
                forall|j: int| 0 <= j < i ==> (#[trigger] names@[j])@ == views(cat@)[j].name,
            decreases cat.len() - i,
        {
            let nm = cat[i].name.clone();
            proof {
                assert(nm@ == views(cat@)[i as int].name);
            }
            names.push(nm);
            i = i + 1;
        }
        proof {
            assert forall|j: int| 0 <= j < names@.len() implies names.deep_view()[j] == names_of(
                views(cat@),
            )[j] by {
                assert(names.deep_view()[j] == names@[j]@);
            }
            assert(names.deep_view() =~= names_of(views(cat@)));
        }
        Outcome::Names(names)
    } else if args.len() <= 2 {
        let target = args[0].as_str();
        let arg = if args.len() == 2 {
            args[1].as_str()
        } else {
            ""
        };
        proof {
            reveal_strlit("");
            assert(""@ =~= Seq::<char>::empty());
            assert(args.deep_view()[0] == target@);
            if args.len() == 2 {
                assert(args.deep_view()[1] == arg@);
            }
        }
        let ghost full = views(cat@);
        let mut i: usize = 0;
        proof {
            assert(full.skip(0) =~= full);
        }
        while i < cat.len()
            invariant
                i <= cat.len(),
                full == views(cat@),
                full.len() == cat.len(),
                target@ == args.deep_view()[0],
                arg@ == (if args.deep_view().len() == 2 {
                    args.deep_view()[1]
                } else {
                    Seq::<char>::empty()
                }),
                args.deep_view().len() == args.len(),
                1 <= args.len() <= 2,
                first_match(full, target@) == first_match(full.skip(i as int), target@),
            decreases cat.len() - i,
        {
            proof {
                assert(full.skip(i as int)[0] == full[i as int]);
                assert(full.skip(i as int).skip(1) =~= full.skip(i as int + 1));
            }
            if str_eq(cat[i].name.as_str(), target) {
                return resolve(&cat[i], arg, cfg);
            }
            i = i + 1;
        }
        proof {
            assert(full.skip(cat.len() as int) =~= Seq::<EntryView>::empty());
        }
        Outcome::NoMatch
    } else {
        Outcome::Usage
    }
}

/// A terminal-flagged application resolves under the terminal prefix and a
/// plain one under the application prefix: the selection depends on `term`
/// alone, and the other prefix never appears.
pub proof fn lemma_prefix_selection(e: EntryView, arg: Seq<char>, cfg: ConfigView)
    requires
        e.entry_type == "Application"@,
        e.exec_cmd is Some,
    ensures
        e.term ==> spec_resolve(e, arg, cfg) == OutcomeView::Line(
            cfg.term_prefix + subst(e.exec_cmd.unwrap(), arg),
        ),
        !e.term ==> spec_resolve(e, arg, cfg) == OutcomeView::Line(
            cfg.app_prefix + subst(e.exec_cmd.unwrap(), arg),
        ),
{
}

/// A link entry resolved under a default configuration (its prefix variable
/// unset) yields `"xdg-open "` followed by the target.
pub proof fn lemma_link_default_prefix(e: EntryView, arg: Seq<char>, cfg: ConfigView)
    requires
        e.entry_type == "Link"@,
        e.url is Some,
        cfg.url_prefix == spec_url_prefix(None::<Seq<char>>),
    ensures
        spec_resolve(e, arg, cfg) == OutcomeView::Line("xdg-open "@ + e.url.unwrap()),
{
    reveal_strlit("Application");
    reveal_strlit("Link");
    assert("Link"@.len() != "Application"@.len());
    assert(e.entry_type != "Application"@);
}

/// A name that no catalog entry bears never matches.
pub proof fn lemma_absent_name_no_match(cat: Seq<EntryView>, name: Seq<char>)
    requires
        forall|i: int| 0 <= i < cat.len() ==> (#[trigger] cat[i]).name != name,
    ensures
        first_match(cat, name) is None,
    decreases cat.len(),
{
    if cat.len() > 0 {
        assert(forall|i: int|
            0 <= i < cat.skip(1).len() ==> (#[trigger] cat.skip(1)[i]).name != name);
        lemma_absent_name_no_match(cat.skip(1), name);
    }
}

/// Resolution of a name absent from the catalog reports a miss, whatever
/// the configuration.
pub proof fn lemma_no_match_outcome(cat: Seq<EntryView>, args: Seq<Seq<char>>, cfg: ConfigView)
    requires
        1 <= args.len() <= 2,
        forall|i: int| 0 <= i < cat.len() ==> (#[trigger] cat[i]).name != args[0],
    ensures
        spec_dispatch(cat, args, cfg) == OutcomeView::NoMatch,
{
    lemma_absent_name_no_match(cat, args[0]);
}

/// Three or more positional arguments are a usage error, whatever the
/// catalog and configuration hold.
pub proof fn lemma_usage_outcome(cat: Seq<EntryView>, args: Seq<Seq<char>>, cfg: ConfigView)
    requires
        args.len() >= 3,
    ensures
        spec_dispatch(cat, args, cfg) == OutcomeView::Usage,
{
}

} // verus!
