use vstd::prelude::*;
use crate::tui::app::{SelectionView, scan_fwd, scan_back, step_fwd, step_back, spec_next, spec_previous, has_session_row};

verus! {

/// Whether row `j` of `n` is among the `c` + 1 rows visited forward from `i`,
/// wrapping around.
pub open spec fn covered_fwd(i: int, c: int, j: int, n: int) -> bool {
    (i <= j <= i + c) || j + n <= i + c
}

/// Whether row `j` of `n` is among the `c` + 1 rows visited backward from `i`,
/// wrapping around.
pub open spec fn covered_back(i: int, c: int, j: int, n: int) -> bool {
    (i - c <= j <= i) || j >= i - c + n
}

/// A forward scan finds a session row, or there is none among the rows it
/// visits.
pub proof fn lemma_scan_fwd(items: Seq<SelectionView>, i: int, c: nat)
    requires
        0 <= i < items.len(),
        c < items.len(),
    ensures
        scan_fwd(items, i, c) matches Some(k) ==> 0 <= k < items.len() && items[k] is Session,
        scan_fwd(items, i, c) is None ==> forall|j: int|
            0 <= j < items.len() && covered_fwd(i, c as int, j, items.len() as int) ==> !(#[trigger] items[j] is Session),
    decreases c,
{
    let n = items.len() as int;
    if !(items[i] is Session) && c > 0 {
        lemma_scan_fwd(items, step_fwd(i, n), (c - 1) as nat);
    }
}

/// A backward scan finds a session row, or there is none among the rows it
/// visits.
pub proof fn lemma_scan_back(items: Seq<SelectionView>, i: int, c: nat)
    requires
        0 <= i < items.len(),
        c < items.len(),
    ensures
        scan_back(items, i, c) matches Some(k) ==> 0 <= k < items.len() && items[k] is Session,
        scan_back(items, i, c) is None ==> forall|j: int|
            0 <= j < items.len() && covered_back(i, c as int, j, items.len() as int) ==> !(#[trigger] items[j] is Session),
    decreases c,
{
    let n = items.len() as int;
    if !(items[i] is Session) && c > 0 {
        lemma_scan_back(items, step_back(i, n), (c - 1) as nat);
    }
}

/// Moving the selection down or up, from any selection, lands on a session row
/// whenever there is one.
pub proof fn lemma_moves_land_on_sessions(rows: Seq<SelectionView>, selected: Option<usize>)
    requires
        has_session_row(rows),
        rows.len() <= usize::MAX,
    ensures
        spec_next(rows, selected) matches Some(k) && k < rows.len() && rows[k as int] is Session,
        spec_previous(rows, selected) matches Some(k) && k < rows.len() && rows[k as int] is Session,
{
    let n = rows.len() as int;
    let k0 = choose|k: int| 0 <= k < rows.len() && rows[k] is Session;
    let cur = match selected { Some(c) => c as int, None => 0 };
    let i = (cur + 1) % n;
    lemma_scan_fwd(rows, i, (n - 1) as nat);
    assert(covered_fwd(i, n - 1, k0, n));
    assert(rows[k0] is Session);
    let b = if cur == 0 || cur > n { n - 1 } else { cur - 1 };
    lemma_scan_back(rows, b, (n - 1) as nat);
    assert(covered_back(b, n - 1, k0, n));
    assert(rows[k0] is Session);
}


/// How many steps forward lead from row `i` to row `j` of `n`, wrapping around.
pub open spec fn dist_fwd(i: int, j: int, n: int) -> int {
    if j >= i { j - i } else { j - i + n }
}

/// How many steps backward lead from row `i` to row `j` of `n`, wrapping around.
pub open spec fn dist_back(i: int, j: int, n: int) -> int {
    if i >= j { i - j } else { i - j + n }
}

/// A forward scan that finds a row finds the nearest session row ahead.
pub proof fn lemma_scan_fwd_nearest(items: Seq<SelectionView>, i: int, c: nat)
    requires
        0 <= i < items.len(),
        c < items.len(),
    ensures
        scan_fwd(items, i, c) matches Some(k) ==> {
            &&& 0 <= k < items.len()
            &&& items[k] is Session
            &&& dist_fwd(i, k, items.len() as int) <= c
            &&& forall|j: int| 0 <= j < items.len() && dist_fwd(i, j, items.len() as int) < dist_fwd(i, k, items.len() as int)
                ==> !(#[trigger] items[j] is Session)
        },
    decreases c,
{
    let n = items.len() as int;
    if !(items[i] is Session) && c > 0 {
        let i2 = step_fwd(i, n);
        lemma_scan_fwd_nearest(items, i2, (c - 1) as nat);
        if let Some(k) = scan_fwd(items, i, c) {
            assert forall|j: int| 0 <= j < n && dist_fwd(i, j, n) < dist_fwd(i, k, n) implies !(#[trigger] items[j] is Session) by {
                if j != i {
                    assert(dist_fwd(i2, j, n) == dist_fwd(i, j, n) - 1);
                }
            }
        }
    }
}

/// A backward scan reaches session row `t` where no session row lies nearer
/// behind and `t` is within its reach.
pub proof fn lemma_scan_back_reaches(items: Seq<SelectionView>, i: int, c: nat, t: int)
    requires
        0 <= i < items.len(),
        c < items.len(),
        0 <= t < items.len(),
        items[t] is Session,
        dist_back(i, t, items.len() as int) <= c,
        forall|j: int| 0 <= j < items.len() && dist_back(i, j, items.len() as int) < dist_back(i, t, items.len() as int)
            ==> !(#[trigger] items[j] is Session),
    ensures
        scan_back(items, i, c) == Some(t),
    decreases c,
{
    let n = items.len() as int;
    if items[i] is Session {
        assert(dist_back(i, i, n) == 0);
    } else {
        assert(i != t);
        let i2 = step_back(i, n);
        assert(dist_back(i2, t, n) == dist_back(i, t, n) - 1);
        assert forall|j: int| 0 <= j < n && dist_back(i2, j, n) < dist_back(i2, t, n) implies !(#[trigger] items[j] is Session) by {
            assert(dist_back(i, j, n) == dist_back(i2, j, n) + 1);
        }
        lemma_scan_back_reaches(items, i2, (c - 1) as nat, t);
    }
}

/// Moving the selection down and then up from a session row comes back to that
/// row.
pub proof fn lemma_next_then_previous(rows: Seq<SelectionView>, c: usize)
    requires
        (c as int) < rows.len(),
        rows[c as int] is Session,
        rows.len() <= usize::MAX,
    ensures
        spec_previous(rows, spec_next(rows, Some(c))) == Some(c),
{
    let n = rows.len() as int;
    let i = (c + 1) % n;
    if c + 1 < n {
        assert(i == c + 1) by (nonlinear_arith)
            requires i == (c + 1) % n, 0 <= c + 1 < n;
    } else {
        assert(i == 0) by (nonlinear_arith)
            requires i == (c + 1) % n, c + 1 == n;
    }
    lemma_scan_fwd(rows, i, (n - 1) as nat);
    assert(covered_fwd(i, n - 1, c as int, n));
    lemma_scan_fwd_nearest(rows, i, (n - 1) as nat);
    let k = scan_fwd(rows, i, (n - 1) as nat)->0;
    assert(spec_next(rows, Some(c)) == Some(k as usize));
    let b = if k == 0 || k > n { n - 1 } else { k - 1 };
    assert forall|j: int| 0 <= j < n && dist_back(b, j, n) < dist_back(b, c as int, n) implies !(#[trigger] rows[j] is Session) by {
        assert(dist_fwd(i, j, n) < dist_fwd(i, k, n));
    }
    lemma_scan_back_reaches(rows, b, (n - 1) as nat, c as int);
}


} // verus!
