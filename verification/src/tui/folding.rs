use vstd::prelude::*;
use std::sync::Arc;
use crate::model::cache::lookup;
use crate::model::session::Session;
use crate::tui::app::{
    App, FoldOp, SelectionView, after_fold, group_of_row, has_heading, selected_group, session_rows,
    sort_sessions, spec_fold, spec_rows, without,
};

verus! {

/// Whether the rows of `a` are those its headings, groups, sessions and folded
/// groups give, as every rebuild of the tree leaves them.
pub open spec fn rows_current(a: App) -> bool {
    a.rows() == spec_rows(a.group_keys(), a.group_model(), a.registry.sessions@, a.folded())
}

/// An item is in `s` with `x` appended where it is in `s` or is `x`.
pub proof fn lemma_push_contains(s: Seq<Seq<char>>, x: Seq<char>, h: Seq<char>)
    ensures
        s.push(x).contains(h) == (s.contains(h) || x == h),
{
    let t = s.push(x);
    if t.contains(h) {
        let k = choose|k: int| 0 <= k < t.len() && t[k] == h;
        if k < s.len() {
            assert(s[k] == h);
        }
    }
    if s.contains(h) {
        let k = choose|k: int| 0 <= k < s.len() && s[k] == h;
        assert(t[k] == h);
    }
    if x == h {
        assert(t[s.len() as int] == h);
    }
}

/// An item is left by [`without`] exactly where it was there and is not the
/// one taken out.
pub proof fn lemma_without_contains(s: Seq<Seq<char>>, g: Seq<char>, h: Seq<char>)
    ensures
        without(s, g).contains(h) == (s.contains(h) && h != g),
    decreases s.len(),
{
    if s.len() > 0 {
        let d = s.drop_last();
        lemma_without_contains(d, g, h);
        assert(s =~= d.push(s.last()));
        lemma_push_contains(d, s.last(), h);
        if s.last() != g {
            lemma_push_contains(without(d, g), s.last(), h);
        }
    }
}

/// The rows depend on which groups are folded, not on the order or repetition
/// of the folded keys.
pub proof fn lemma_rows_same_folds(
    groups: Seq<Seq<char>>,
    gm: Seq<(Seq<char>, Seq<usize>)>,
    ss: Seq<Arc<Session>>,
    f1: Seq<Seq<char>>,
    f2: Seq<Seq<char>>,
)
    requires
        forall|h: Seq<char>| f1.contains(h) == f2.contains(h),
    ensures
        spec_rows(groups, gm, ss, f1) == spec_rows(groups, gm, ss, f2),
    decreases groups.len(),
{
    if groups.len() > 0 {
        lemma_rows_same_folds(groups.drop_last(), gm, ss, f1, f2);
        assert(f1.contains(groups.last()) == f2.contains(groups.last()));
    }
}

/// The rows hold a heading of `g` exactly where `g` is among the headings.
pub proof fn lemma_heading_in_rows(
    groups: Seq<Seq<char>>,
    gm: Seq<(Seq<char>, Seq<usize>)>,
    ss: Seq<Arc<Session>>,
    f: Seq<Seq<char>>,
    g: Seq<char>,
)
    ensures
        has_heading(spec_rows(groups, gm, ss, f), g) == groups.contains(g),
    decreases groups.len(),
{
    let rows = spec_rows(groups, gm, ss, f);
    if groups.len() == 0 {
        assert(rows.len() == 0);
    } else {
        let d = groups.drop_last();
        lemma_heading_in_rows(d, gm, ss, f, g);
        let prev = spec_rows(d, gm, ss, f);
        let idxs = match lookup(gm, groups.last()) {
            Some(v) => v,
            None => Seq::empty(),
        };
        let shown = if f.contains(groups.last()) {
            Seq::<SelectionView>::empty()
        } else {
            session_rows(ss, sort_sessions(ss, idxs))
        };
        assert(rows == prev + seq![SelectionView::Group(groups.last())] + shown);
        assert(forall|k: int| 0 <= k < shown.len() ==> (#[trigger] shown[k]) is Session);
        assert(groups =~= d.push(groups.last()));
        lemma_push_contains(d, groups.last(), g);
        if has_heading(rows, g) {
            let k = choose|k: int| 0 <= k < rows.len() && rows[k] == SelectionView::Group(g);
            if k < prev.len() {
                assert(prev[k] == rows[k]);
            } else if k > prev.len() {
                assert(shown[k - prev.len() - 1] == rows[k]);
            }
        }
        if d.contains(g) {
            let k = choose|k: int| 0 <= k < prev.len() && prev[k] == SelectionView::Group(g);
            assert(rows[k] == prev[k]);
        }
        if groups.last() == g {
            assert(rows[prev.len() as int] == SelectionView::Group(g));
        }
    }
}

/// The group of a row is one whose heading is among the rows.
pub proof fn lemma_group_of_row_has_heading(rows: Seq<SelectionView>, i: nat, g: Seq<char>)
    requires
        group_of_row(rows, i) == Some(g),
    ensures
        has_heading(rows, g),
    decreases i,
{
    if rows[i as int] is Session {
        lemma_group_of_row_has_heading(rows, (i - 1) as nat, g);
    } else {
        assert(rows[i as int] == SelectionView::Group(g));
    }
}

/// A fold operation leaves the rows current.
pub proof fn lemma_fold_keeps_rows_current(a: App, b: App, op: FoldOp)
    requires
        rows_current(a),
        after_fold(a, b, op),
    ensures
        rows_current(b),
{
    assert(b.group_model() =~= a.group_model());
    assert(b.group_keys() =~= a.group_keys());
}

/// After a fold operation on the selected group, that group is folded exactly
/// where the operation folds it (folding does, unfolding does not, toggling
/// turns it over), and every other group keeps its fold.
pub proof fn lemma_fold_sets_group(a: App, b: App, op: FoldOp, g: Seq<char>, h: Seq<char>)
    requires
        after_fold(a, b, op),
        selected_group(a.rows(), a.list_state.selected) == Some(g),
    ensures
        b.folded().contains(g) == match op {
            FoldOp::Fold => true,
            FoldOp::Unfold => false,
            FoldOp::Toggle => !a.folded().contains(g),
        },
        h != g ==> b.folded().contains(h) == a.folded().contains(h),
{
    lemma_push_contains(a.folded(), g, g);
    lemma_push_contains(a.folded(), g, h);
    lemma_without_contains(a.folded(), g, g);
    lemma_without_contains(a.folded(), g, h);
}

/// Toggling the fold of the selected group twice gives back the rows, and every
/// group's fold, as they were.
pub proof fn lemma_toggle_fold_twice(a: App, b: App, c: App)
    requires
        rows_current(a),
        after_fold(a, b, FoldOp::Toggle),
        after_fold(b, c, FoldOp::Toggle),
    ensures
        c.rows() == a.rows(),
        forall|h: Seq<char>| c.folded().contains(h) == a.folded().contains(h),
{
    match selected_group(a.rows(), a.list_state.selected) {
        None => {},
        Some(g) => {
            let sel = a.list_state.selected->0;
            lemma_group_of_row_has_heading(a.rows(), sel as nat, g);
            lemma_heading_in_rows(a.group_keys(), a.group_model(), a.registry.sessions@, a.folded(), g);
            lemma_heading_in_rows(a.group_keys(), a.group_model(), a.registry.sessions@, b.folded(), g);
            let k = b.list_state.selected->0;
            assert(b.rows()[k as int] == SelectionView::Group(g));
            assert(selected_group(b.rows(), b.list_state.selected) == Some(g));
            assert(b.group_model() =~= a.group_model());
            assert(b.group_keys() =~= a.group_keys());
            assert forall|h: Seq<char>| c.folded().contains(h) == a.folded().contains(h) by {
                lemma_fold_sets_group(a, b, FoldOp::Toggle, g, h);
                lemma_fold_sets_group(b, c, FoldOp::Toggle, g, h);
            }
            lemma_rows_same_folds(a.group_keys(), a.group_model(), a.registry.sessions@, c.folded(), a.folded());
        },
    }
}

} // verus!
