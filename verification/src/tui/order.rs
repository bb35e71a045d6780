use vstd::prelude::*;
use std::sync::Arc;
use crate::model::session::Session;
use crate::tui::app::{GroupingMode, key_before, key_insert_pos, sort_keys, session_insert_pos, sort_sessions,
    lemma_key_insert_pos_bound, lemma_session_insert_pos_bound, lemma_sort_sessions_members};
use crate::utils::text::{lemma_seq_lt_asymmetric, lemma_seq_lt_transitive};
use crate::utils::time::spec_before;

verus! {

/// The order of group keys is a strict order: never both ways, and transitive.
pub proof fn lemma_key_before_strict(a: Seq<char>, b: Seq<char>, c: Seq<char>, mode: GroupingMode)
    ensures
        key_before(a, b, mode) ==> !key_before(b, a, mode),
        key_before(a, b, mode) && key_before(b, c, mode) ==> key_before(a, c, mode),
{
    lemma_seq_lt_asymmetric(a, b);
    match mode {
        GroupingMode::Host => {
            if key_before(a, b, mode) && key_before(b, c, mode) {
                lemma_seq_lt_transitive(a, b, c);
            }
        },
        GroupingMode::Month => {
            if key_before(a, b, mode) && key_before(b, c, mode) {
                lemma_seq_lt_transitive(c, b, a);
            }
        },
    }
}

/// A key goes in after every key it does not come before, and right before the
/// first one it comes before.
pub proof fn lemma_key_insert_pos_place(sorted: Seq<Seq<char>>, k: Seq<char>, mode: GroupingMode)
    ensures
        forall|i: int| 0 <= i < key_insert_pos(sorted, k, mode) ==> !key_before(k, #[trigger] sorted[i], mode),
        key_insert_pos(sorted, k, mode) < sorted.len() ==> key_before(k, sorted[key_insert_pos(sorted, k, mode)], mode),
    decreases sorted.len(),
{
    if sorted.len() > 0 && !key_before(k, sorted[0], mode) {
        let rest = sorted.drop_first();
        lemma_key_insert_pos_place(rest, k, mode);
        lemma_key_insert_pos_bound(rest, k, mode);
        let p = key_insert_pos(sorted, k, mode);
        if p < sorted.len() {
            assert(sorted[p] == rest[p - 1]);
        }
        assert forall|i: int| 0 <= i < key_insert_pos(sorted, k, mode) implies !key_before(k, #[trigger] sorted[i], mode) by {
            if i > 0 {
                assert(sorted[i] == rest[i - 1]);
            }
        }
    }
}

/// The group keys in display order are in order: hosts ascending, months
/// descending, no key after one it comes before.
pub proof fn lemma_sort_keys_sorted(keys: Seq<Seq<char>>, mode: GroupingMode)
    ensures
        forall|i: int, j: int| 0 <= i < j < sort_keys(keys, mode).len()
            ==> !key_before(#[trigger] sort_keys(keys, mode)[j], #[trigger] sort_keys(keys, mode)[i], mode),
    decreases keys.len(),
{
    if keys.len() > 0 {
        let x = keys.last();
        let s = sort_keys(keys.drop_last(), mode);
        lemma_sort_keys_sorted(keys.drop_last(), mode);
        lemma_key_insert_pos_bound(s, x, mode);
        lemma_key_insert_pos_place(s, x, mode);
        let p = key_insert_pos(s, x, mode);
        let r = s.insert(p, x);
        assert(r == sort_keys(keys, mode));
        assert forall|i: int, j: int| 0 <= i < j < r.len() implies !key_before(#[trigger] r[j], #[trigger] r[i], mode) by {
            if j < p {
                assert(r[i] == s[i] && r[j] == s[j]);
            } else if j == p {
                assert(r[i] == s[i]);
            } else if i < p {
                assert(r[i] == s[i] && r[j] == s[j - 1]);
            } else if i == p {
                assert(r[j] == s[j - 1]);
                lemma_key_before_strict(s[j - 1], x, s[p], mode);
                lemma_key_before_strict(x, s[p], s[p], mode);
                if j - 1 > p {
                    assert(!key_before(s[j - 1], s[p], mode));
                }
            } else {
                assert(r[i] == s[i - 1] && r[j] == s[j - 1]);
            }
        }
    }
}

/// Ordering the group keys neither loses nor adds a key.
pub proof fn lemma_sort_keys_permutation(keys: Seq<Seq<char>>, mode: GroupingMode)
    ensures
        sort_keys(keys, mode).to_multiset() == keys.to_multiset(),
    decreases keys.len(),
{
    if keys.len() > 0 {
        let rest = keys.drop_last();
        lemma_sort_keys_permutation(rest, mode);
        let s = sort_keys(rest, mode);
        lemma_key_insert_pos_bound(s, keys.last(), mode);
        assert(keys =~= rest.push(keys.last()));
        vstd::seq_lib::to_multiset_build(rest, keys.last());
        vstd::seq_lib::to_multiset_insert(s, key_insert_pos(s, keys.last(), mode), keys.last());
        assert(sort_keys(keys, mode) == s.insert(key_insert_pos(s, keys.last(), mode), keys.last()));
        assert(sort_keys(keys, mode).to_multiset() =~= keys.to_multiset());
    } else {
        assert(sort_keys(keys, mode) =~= keys);
    }
}

/// A session goes in after every session not strictly older, and right before
/// the first strictly older one.
pub proof fn lemma_session_insert_pos_place(ss: Seq<Arc<Session>>, sorted: Seq<usize>, x: usize)
    ensures
        forall|i: int| 0 <= i < session_insert_pos(ss, sorted, x)
            ==> !spec_before(ss[#[trigger] sorted[i] as int].updated_at, ss[x as int].updated_at),
        session_insert_pos(ss, sorted, x) < sorted.len()
            ==> spec_before(ss[sorted[session_insert_pos(ss, sorted, x)] as int].updated_at, ss[x as int].updated_at),
    decreases sorted.len(),
{
    if sorted.len() > 0 && !spec_before(ss[sorted[0] as int].updated_at, ss[x as int].updated_at) {
        let rest = sorted.drop_first();
        lemma_session_insert_pos_place(ss, rest, x);
        lemma_session_insert_pos_bound(ss, rest, x);
        let p = session_insert_pos(ss, sorted, x);
        if p < sorted.len() {
            assert(sorted[p] == rest[p - 1]);
        }
        assert forall|i: int| 0 <= i < session_insert_pos(ss, sorted, x)
            implies !spec_before(ss[#[trigger] sorted[i] as int].updated_at, ss[x as int].updated_at) by {
            if i > 0 {
                assert(sorted[i] == rest[i - 1]);
            }
        }
    }
}

/// The sessions of a group are shown newest first: no session comes before one
/// updated later.
pub proof fn lemma_sort_sessions_newest_first(ss: Seq<Arc<Session>>, idxs: Seq<usize>)
    ensures
        forall|i: int, j: int| 0 <= i < j < sort_sessions(ss, idxs).len()
            ==> !spec_before(
                ss[#[trigger] sort_sessions(ss, idxs)[i] as int].updated_at,
                ss[#[trigger] sort_sessions(ss, idxs)[j] as int].updated_at,
            ),
    decreases idxs.len(),
{
    if idxs.len() > 0 {
        let x = idxs.last();
        let s = sort_sessions(ss, idxs.drop_last());
        lemma_sort_sessions_newest_first(ss, idxs.drop_last());
        lemma_session_insert_pos_bound(ss, s, x);
        lemma_session_insert_pos_place(ss, s, x);
        let p = session_insert_pos(ss, s, x);
        let r = s.insert(p, x);
        assert(r == sort_sessions(ss, idxs));
        assert forall|i: int, j: int| 0 <= i < j < r.len()
            implies !spec_before(ss[#[trigger] r[i] as int].updated_at, ss[#[trigger] r[j] as int].updated_at) by {
            if j < p {
                assert(r[i] == s[i] && r[j] == s[j]);
            } else if j == p {
                assert(r[i] == s[i]);
            } else if i < p {
                assert(r[i] == s[i] && r[j] == s[j - 1]);
            } else if i == p {
                assert(r[j] == s[j - 1]);
                if j - 1 > p {
                    assert(!spec_before(ss[s[p] as int].updated_at, ss[s[j - 1] as int].updated_at));
                }
            } else {
                assert(r[i] == s[i - 1] && r[j] == s[j - 1]);
            }
        }
    }
}

/// Sessions updated at the same instant keep the order they were added in:
/// of two such sessions in a group's order, the earlier one was added first.
pub proof fn lemma_sort_sessions_stable(ss: Seq<Arc<Session>>, idxs: Seq<usize>)
    ensures
        forall|i: int, j: int| 0 <= i < j < sort_sessions(ss, idxs).len()
            && ss[#[trigger] sort_sessions(ss, idxs)[i] as int].updated_at
                == ss[#[trigger] sort_sessions(ss, idxs)[j] as int].updated_at
            ==> exists|a: int, b: int| 0 <= a < b < idxs.len()
                && idxs[a] == sort_sessions(ss, idxs)[i] && idxs[b] == sort_sessions(ss, idxs)[j],
    decreases idxs.len(),
{
    if idxs.len() > 0 {
        let x = idxs.last();
        let front = idxs.drop_last();
        let s = sort_sessions(ss, front);
        lemma_sort_sessions_stable(ss, front);
        lemma_sort_sessions_newest_first(ss, front);
        lemma_sort_sessions_members(ss, front);
        lemma_session_insert_pos_bound(ss, s, x);
        lemma_session_insert_pos_place(ss, s, x);
        let p = session_insert_pos(ss, s, x);
        let r = s.insert(p, x);
        assert(r == sort_sessions(ss, idxs));
        let n = idxs.len() as int;
        assert forall|i: int, j: int| 0 <= i < j < r.len()
            && ss[#[trigger] r[i] as int].updated_at == ss[#[trigger] r[j] as int].updated_at
            implies exists|a: int, b: int| 0 <= a < b < idxs.len() && idxs[a] == r[i] && idxs[b] == r[j] by {
            if j < p {
                assert(r[i] == s[i] && r[j] == s[j]);
                let (a, b) = choose|a: int, b: int| 0 <= a < b < front.len() && front[a] == s[i] && front[b] == s[j];
                assert(idxs[a] == front[a] && idxs[b] == front[b]);
            } else if j == p {
                assert(r[i] == s[i]);
                assert(front.contains(s[i]));
                let a = choose|a: int| 0 <= a < front.len() && front[a] == s[i];
                assert(idxs[a] == front[a] && idxs[n - 1] == x);
            } else if i < p {
                assert(r[i] == s[i] && r[j] == s[j - 1]);
                let (a, b) = choose|a: int, b: int| 0 <= a < b < front.len() && front[a] == s[i] && front[b] == s[j - 1];
                assert(idxs[a] == front[a] && idxs[b] == front[b]);
            } else if i == p {
                assert(r[j] == s[j - 1]);
                if j - 1 > p {
                    assert(!spec_before(ss[s[p] as int].updated_at, ss[s[j - 1] as int].updated_at));
                }
                assert(false);
            } else {
                assert(r[i] == s[i - 1] && r[j] == s[j - 1]);
                let (a, b) = choose|a: int, b: int| 0 <= a < b < front.len() && front[a] == s[i - 1] && front[b] == s[j - 1];
                assert(idxs[a] == front[a] && idxs[b] == front[b]);
            }
        }
    }
}

/// Ordering a group's sessions neither loses nor adds one.
pub proof fn lemma_sort_sessions_permutation(ss: Seq<Arc<Session>>, idxs: Seq<usize>)
    ensures
        sort_sessions(ss, idxs).to_multiset() == idxs.to_multiset(),
    decreases idxs.len(),
{
    if idxs.len() > 0 {
        let rest = idxs.drop_last();
        lemma_sort_sessions_permutation(ss, rest);
        let s = sort_sessions(ss, rest);
        lemma_session_insert_pos_bound(ss, s, idxs.last());
        assert(idxs =~= rest.push(idxs.last()));
        vstd::seq_lib::to_multiset_build(rest, idxs.last());
        vstd::seq_lib::to_multiset_insert(s, session_insert_pos(ss, s, idxs.last()), idxs.last());
        assert(sort_sessions(ss, idxs) == s.insert(session_insert_pos(ss, s, idxs.last()), idxs.last()));
        assert(sort_sessions(ss, idxs).to_multiset() =~= idxs.to_multiset());
    } else {
        assert(sort_sessions(ss, idxs) =~= idxs);
    }
}

} // verus!
