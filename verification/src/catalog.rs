//! Catalog construction: parse every discovered text, keep the visible
//! entries, and sort them by name.

use crate::entry::Entry;
use crate::entry::EntryView;
use crate::entry::views;
use crate::entry::visible;
use crate::section::parse_entry;
use crate::section::parse_view;
use crate::strcmp::lex_le;
use crate::strcmp::lemma_lex_le_total;
use crate::strcmp::lemma_lex_le_trans;
use crate::strcmp::str_eq;
use crate::strcmp::str_le;
use vstd::prelude::*;

verus! {

/// The entries denoted by those texts that parse, in order; texts that fail
/// to parse contribute nothing.
pub open spec fn parsed_ok(texts: Seq<Seq<char>>) -> Seq<EntryView>
    decreases texts.len(),
{
    if texts.len() == 0 {
        Seq::<EntryView>::empty()
    } else {
        (match parse_view(texts[0]) {
            Some(e) => seq![e],
            None => Seq::<EntryView>::empty(),
        }) + parsed_ok(texts.skip(1))
    }
}

/// The subsequence of visible entries, in order.
pub open spec fn keep_visible(s: Seq<EntryView>) -> Seq<EntryView>
    decreases s.len(),
{
    if s.len() == 0 {
        Seq::<EntryView>::empty()
    } else {
        (if visible(s[0]) {
            seq![s[0]]
        } else {
            Seq::<EntryView>::empty()
        }) + keep_visible(s.skip(1))
    }
}

/// Non-decreasing by name under the lexicographic order.
pub open spec fn sorted_by_name(s: Seq<EntryView>) -> bool {
    forall|i: int, j: int| 0 <= i <= j < s.len() ==> #[trigger] lex_le(s[i].name, s[j].name)
}

/// `e` placed after every leading entry whose name is not greater: the
/// stable insertion step.
pub open spec fn insert_ordered(s: Seq<EntryView>, e: EntryView) -> Seq<EntryView>
    decreases s.len(),
{
    if s.len() == 0 {
        seq![e]
    } else if lex_le(s[0].name, e.name) {
        seq![s[0]] + insert_ordered(s.skip(1), e)
    } else {
        seq![e] + s
    }
}

/// Stable insertion sort by name: entries of equal name keep their given
/// order, so the first of a duplicated name stays first.
pub open spec fn sort_ordered(s: Seq<EntryView>) -> Seq<EntryView>
    decreases s.len(),
{
    if s.len() == 0 {
        Seq::<EntryView>::empty()
    } else {
        insert_ordered(sort_ordered(s.drop_last()), s.last())
    }
}

/// Inserting before the first strictly greater name is what `insert_ordered`
/// denotes.
proof fn lemma_insert_ordered_at(s: Seq<EntryView>, e: EntryView, j: int)
    requires
        0 <= j <= s.len(),
        forall|k: int| 0 <= k < j ==> lex_le(#[trigger] s[k].name, e.name),
        j < s.len() ==> !lex_le(s[j].name, e.name),
    ensures
        insert_ordered(s, e) == s.insert(j, e),
    decreases s.len(),
{
    if s.len() == 0 {
        assert(seq![e] =~= s.insert(0, e));
    } else if j == 0 {
        assert(seq![e] + s =~= s.insert(0, e));
    } else {
        assert(lex_le(s[0].name, e.name));
        assert forall|k: int| 0 <= k < j - 1 implies lex_le(#[trigger] s.skip(1)[k].name, e.name) by {
            assert(s.skip(1)[k] == s[k + 1]);
        }
        if j - 1 < s.skip(1).len() {
            assert(s.skip(1)[j - 1] == s[j]);
        }
        lemma_insert_ordered_at(s.skip(1), e, j - 1);
        assert(seq![s[0]] + s.skip(1).insert(j - 1, e) =~= s.insert(j, e));
    }
}

/// Everything `keep_visible` retains is visible.
pub proof fn lemma_keep_visible_visible(s: Seq<EntryView>, e: EntryView)
    requires
        keep_visible(s).contains(e),
    ensures
        visible(e),
    decreases s.len(),
{
    if s.len() > 0 {
        let head = if visible(s[0]) {
            seq![s[0]]
        } else {
            Seq::<EntryView>::empty()
        };
        let i = choose|i: int| 0 <= i < keep_visible(s).len() && keep_visible(s)[i] == e;
        if i < head.len() {
            assert(e == s[0]);
        } else {
            assert(keep_visible(s.skip(1))[i - head.len()] == e);
            assert(keep_visible(s.skip(1)).contains(e));
            lemma_keep_visible_visible(s.skip(1), e);
        }
    }
}

/// Parse every text, keeping the successes in order: failures are dropped
/// silently, exactly as `parsed_ok` states.
pub fn parse_entries(texts: &Vec<String>) -> (r: Vec<Entry>)
    ensures
        views(r@) == parsed_ok(texts.deep_view()),
{
    let ghost all = texts.deep_view();
    let mut out: Vec<Entry> = Vec::new();
    let mut i: usize = 0;
    proof {
        assert(all.skip(0) =~= all);
        assert(views(out@) + parsed_ok(all) =~= parsed_ok(all));
    }
    while i < texts.len()
        invariant
            i <= texts.len(),
            all == texts.deep_view(),
            all.len() == texts.len(),
            parsed_ok(all) == views(out@) + parsed_ok(all.skip(i as int)),
        decreases texts.len() - i,
    {
        let ghost rest = all.skip(i as int);
        proof {
            assert(rest[0] == all[i as int]);
            assert(rest.skip(1) =~= all.skip(i as int + 1));
        }
        match parse_entry(texts[i].as_str()) {
            Some(e) => {
                proof {
                    assert(views(out@.push(e)) =~= views(out@) + seq![e@]);
                    assert(views(out@) + (seq![e@] + parsed_ok(rest.skip(1))) =~= (views(out@)
                        + seq![e@]) + parsed_ok(rest.skip(1)));
                }
                out.push(e);
            },
            None => {
                proof {
                    assert(Seq::<EntryView>::empty() + parsed_ok(rest.skip(1)) =~= parsed_ok(
                        rest.skip(1),
                    ));
                }
            },
        }
        i = i + 1;
    }
    proof {
        assert(all.skip(texts.len() as int) =~= Seq::<Seq<char>>::empty());
        assert(views(out@) + Seq::<EntryView>::empty() =~= views(out@));
    }
    out
}

/// Keep exactly the visible entries, in their given order.
pub fn filter_visible(entries: Vec<Entry>) -> (r: Vec<Entry>)
    ensures
        views(r@) == keep_visible(views(entries@)),
{
    let ghost all = views(entries@);
    let mut rest = entries;
    let mut out: Vec<Entry> = Vec::new();
    proof {
        assert(views(out@) + keep_visible(all) =~= keep_visible(all));
    }
    while rest.len() > 0
        invariant
            keep_visible(all) == views(out@) + keep_visible(views(rest@)),
        decreases rest.len(),
    {
        let ghost before = views(rest@);
        let e = rest.remove(0);
        proof {
            assert(before[0] == e@);
            assert(views(rest@) =~= before.skip(1));
        }
        let keep = !e.hidden && !e.no_display && (str_eq(e.entry_type.as_str(), "Application")
            || str_eq(e.entry_type.as_str(), "Link"));
        if keep {
            proof {
                assert(views(out@.push(e)) =~= views(out@) + seq![e@]);
                assert(views(out@) + (seq![e@] + keep_visible(before.skip(1))) =~= (views(out@)
                    + seq![e@]) + keep_visible(before.skip(1)));
            }
            out.push(e);
        } else {
            proof {
                assert(Seq::<EntryView>::empty() + keep_visible(before.skip(1)) =~= keep_visible(
                    before.skip(1),
                ));
            }
        }
    }
    proof {
        assert(views(rest@) =~= Seq::<EntryView>::empty());
        assert(views(out@) + Seq::<EntryView>::empty() =~= views(out@));
    }
    out
}

/// Insert `e` into a sorted vector, after every entry whose name is not
/// greater, keeping it sorted.
fn insert_sorted(out: &mut Vec<Entry>, e: Entry)
    requires
        sorted_by_name(views(old(out)@)),
    ensures
        sorted_by_name(views(final(out)@)),
        views(final(out)@) == insert_ordered(views(old(out)@), e@),
        views(final(out)@).to_multiset() == views(old(out)@).to_multiset().insert(e@),
{
    broadcast use vstd::seq_lib::group_to_multiset_ensures;

    let mut j: usize = 0;
    while j < out.len() && str_le(out[j].name.as_str(), e.name.as_str())
        invariant
            j <= out.len(),
            sorted_by_name(views(out@)),
            forall|k: int| 0 <= k < j ==> lex_le(#[trigger] views(out@)[k].name, e@.name),
        decreases out.len() - j,
    {
        j = j + 1;
    }
    proof {
        if j < out.len() {
            lemma_lex_le_total(views(out@)[j as int].name, e@.name);
        }
    }
    let ghost before = views(out@);
    let ghost pos = j as int;
    out.insert(j, e);
    proof {
        let after = views(out@);
        assert(after =~= before.insert(pos, e@));
        lemma_insert_ordered_at(before, e@, pos);
        assert forall|i: int, j2: int| 0 <= i <= j2 < after.len() implies #[trigger] lex_le(
            after[i].name,
            after[j2].name,
        ) by {
            if i < pos && j2 < pos {
            } else if i < pos && j2 == pos {
            } else if i == pos && j2 == pos {
                lemma_lex_le_total(e@.name, e@.name);
            } else if i == pos && j2 > pos {
                if pos < before.len() {
                    lemma_lex_le_trans(e@.name, before[pos].name, before[j2 - 1].name);
                }
            } else if i < pos && j2 > pos {
            } else {
            }
        }
        assert(after.remove(pos) =~= before);
        assert(after.remove(pos).to_multiset() == after.to_multiset().remove(after[pos]));
        assert(after.contains(after[pos]));
        assert(after.to_multiset().count(e@) > 0);
        assert(after.to_multiset() =~= before.to_multiset().insert(e@));
    }
}

/// Sort the entries by name: the result is non-decreasing by name and holds
/// exactly the given entries.
pub fn sort_by_name(entries: Vec<Entry>) -> (r: Vec<Entry>)
    ensures
        sorted_by_name(views(r@)),
        views(r@) == sort_ordered(views(entries@)),
        views(r@).to_multiset() == views(entries@).to_multiset(),
{
    broadcast use vstd::seq_lib::group_to_multiset_ensures;

    let ghost all = views(entries@);
    let mut rest = entries;
    let mut out: Vec<Entry> = Vec::new();
    let ghost mut done: int = 0;
    proof {
        assert(views(out@) =~= Seq::<EntryView>::empty());
        assert(views(out@).to_multiset().add(views(rest@).to_multiset()) =~= all.to_multiset());
        assert(all.take(0) =~= Seq::<EntryView>::empty());
        assert(all.skip(0) =~= all);
    }
    while rest.len() > 0
        invariant
            0 <= done <= all.len(),
            views(rest@) == all.skip(done),
            sorted_by_name(views(out@)),
            views(out@) == sort_ordered(all.take(done)),
            views(out@).to_multiset().add(views(rest@).to_multiset()) == all.to_multiset(),
        decreases rest.len(),
    {
        let ghost before = views(rest@);
        let e = rest.remove(0);
        proof {
            assert(before.len() > 0);
            assert(before[0] == all[done]);
            assert(before[0] == e@);
            assert(views(rest@) =~= before.remove(0));
            assert(views(rest@) =~= all.skip(done + 1));
            vstd::seq_lib::to_multiset_remove::<EntryView>(before, 0);
            vstd::seq_lib::to_multiset_contains::<EntryView>(before, e@);
            assert(before.contains(before[0]));
        }
        let ghost out_before = views(out@);
        insert_sorted(&mut out, e);
        proof {
            broadcast use vstd::multiset::group_multiset_axioms;

            assert(views(out@).to_multiset() == out_before.to_multiset().insert(e@));
            assert(views(rest@).to_multiset() == before.to_multiset().remove(e@));
            assert(before.to_multiset().count(e@) > 0);
            assert(views(out@).to_multiset().add(views(rest@).to_multiset()) =~= all.to_multiset());
            assert(all.take(done + 1).drop_last() =~= all.take(done));
            assert(all.take(done + 1).last() == all[done]);
            assert(views(out@) == sort_ordered(all.take(done + 1)));
            done = done + 1;
        }
    }
    proof {
        assert(views(rest@) =~= Seq::<EntryView>::empty());
        assert(done == all.len());
        assert(all.take(done) =~= all);
        assert(views(out@).to_multiset().add(views(rest@).to_multiset()) =~= views(
            out@,
        ).to_multiset());
    }
    out
}

/// Build the catalog for one invocation from the discovered texts: parse
/// them all, keep the visible entries, and sort by name.
///
/// The catalog holds exactly the visible parsed entries, it is sorted, and
/// a hidden entry, a barred-from-display entry or one of an unsupported
/// type never appears in it.
pub fn build_catalog(texts: &Vec<String>) -> (cat: Vec<Entry>)
    ensures
        sorted_by_name(views(cat@)),
        views(cat@) == sort_ordered(keep_visible(parsed_ok(texts.deep_view()))),
        views(cat@).to_multiset() == keep_visible(parsed_ok(texts.deep_view())).to_multiset(),
        forall|i: int| 0 <= i < cat@.len() ==> visible(#[trigger] views(cat@)[i]),
{
    broadcast use vstd::seq_lib::group_to_multiset_ensures;

    let parsed = parse_entries(texts);
    let vis = filter_visible(parsed);
    let cat = sort_by_name(vis);
    proof {
        let kept = keep_visible(parsed_ok(texts.deep_view()));
        assert forall|i: int| 0 <= i < cat@.len() implies visible(#[trigger] views(cat@)[i]) by {
            assert(views(cat@).contains(views(cat@)[i]));
            assert(views(cat@).to_multiset().count(views(cat@)[i]) > 0);
            assert(kept.contains(views(cat@)[i]));
            lemma_keep_visible_visible(parsed_ok(texts.deep_view()), views(cat@)[i]);
        }
    }
    cat
}

} // verus!
