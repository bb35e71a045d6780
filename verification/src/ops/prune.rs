use vstd::prelude::*;
use std::sync::Arc;
use crate::model::session::Session;
use crate::utils::time::{Timestamp, now, secs_in_range, MIN_UTC_SECS, MAX_UTC_SECS};

verus! {

/// `days as i64`: the day count read as a signed 64-bit number.
pub open spec fn days_as_i64(days: u64) -> int {
    if days > 0x7fff_ffff_ffff_ffff { days - 0x1_0000_0000_0000_0000 } else { days as int }
}

/// The largest day count chrono's `TimeDelta::days` accepts.
pub const MAX_DELTA_DAYS: i64 = 106751991167;

/// Whether `TimeDelta::days(days as i64)` is in bounds.
pub open spec fn delta_days_ok(days: u64) -> bool {
    -MAX_DELTA_DAYS <= days_as_i64(days) <= MAX_DELTA_DAYS
}

/// Whether a day count is one chrono's `TimeDelta::days` accepts.
pub fn days_in_bounds(days: u64) -> (r: bool)
    ensures
        r == delta_days_ok(days),
{
    days <= 106751991167 || days >= 18446743966957560449
}

/// The second of the prune threshold: `days` days before `now`.
pub open spec fn threshold_secs(now: Timestamp, days: u64) -> int {
    now.secs - days_as_i64(days) * 86400
}

/// Whether a session was last updated strictly before `days` days before `now`.
pub open spec fn is_stale(s: Session, now: Timestamp, days: u64) -> bool {
    let t = threshold_secs(now, days);
    s.updated_at.secs < t || (s.updated_at.secs == t && s.updated_at.nanos < now.nanos)
}

/// The sessions, in order, that were last updated before the threshold.
pub open spec fn spec_stale(ss: Seq<Arc<Session>>, now: Timestamp, days: u64) -> Seq<Arc<Session>>
    decreases ss.len(),
{
    if ss.len() == 0 {
        Seq::empty()
    } else {
        let rest = spec_stale(ss.drop_last(), now, days);
        if is_stale(*ss.last(), now, days) { rest.push(ss.last()) } else { rest }
    }
}

/// Pruning picks exactly the stale sessions: each session picked is one of the
/// sessions and is stale, and each stale session is picked.
pub proof fn lemma_stale_exact(ss: Seq<Arc<Session>>, now: Timestamp, days: u64)
    ensures
        spec_stale(ss, now, days).len() <= ss.len(),
        forall|k: int| 0 <= k < spec_stale(ss, now, days).len()
            ==> ss.contains(#[trigger] spec_stale(ss, now, days)[k]) && is_stale(*spec_stale(ss, now, days)[k], now, days),
        forall|i: int| 0 <= i < ss.len() && is_stale(*ss[i], now, days) ==> spec_stale(ss, now, days).contains(#[trigger] ss[i]),
    decreases ss.len(),
{
    if ss.len() > 0 {
        let front = ss.drop_last();
        lemma_stale_exact(front, now, days);
        let r = spec_stale(ss, now, days);
        let rf = spec_stale(front, now, days);
        assert forall|k: int| 0 <= k < r.len() implies ss.contains(#[trigger] r[k]) && is_stale(*r[k], now, days) by {
            if k < rf.len() {
                assert(r[k] == rf[k]);
                assert(front.contains(rf[k]));
                let w = choose|w: int| 0 <= w < front.len() && front[w] == rf[k];
                assert(ss[w] == front[w]);
            } else {
                assert(r[k] == ss.last());
                assert(ss[ss.len() - 1] == ss.last());
            }
        }
        assert forall|i: int| 0 <= i < ss.len() && is_stale(*ss[i], now, days) implies r.contains(#[trigger] ss[i]) by {
            if i < front.len() {
                assert(front[i] == ss[i]);
                assert(rf.contains(front[i]));
                let w = choose|w: int| 0 <= w < rf.len() && rf[w] == front[i];
                assert(r[w] == rf[w]);
            } else {
                assert(r[r.len() - 1] == ss[i]);
            }
        }
    }
}

/// The sessions last updated more than `days` days before `now`, in their order.
pub fn find_sessions_to_prune_at<'a>(sessions: &'a [Arc<Session>], days: u64, now: Timestamp) -> (r: Vec<&'a Arc<Session>>)
    requires
        delta_days_ok(days),
        secs_in_range(threshold_secs(now, days)),
    ensures
        r@.map_values(|a: &Arc<Session>| *a) == spec_stale(sessions@, now, days),
{
    let d: i128 = if days > 0x7fff_ffff_ffff_ffff {
        days as i128 - 0x1_0000_0000_0000_0000i128
    } else {
        days as i128
    };
    let t: i128 = now.secs as i128 - d * 86400;
    let mut r: Vec<&'a Arc<Session>> = Vec::new();
    let mut i: usize = 0;
    while i < sessions.len()
        invariant
            i <= sessions@.len(),
            t == threshold_secs(now, days),
            r@.map_values(|a: &Arc<Session>| *a) == spec_stale(sessions@.take(i as int), now, days),
        decreases sessions.len() - i,
    {
        assert(sessions@.take(i + 1).drop_last() =~= sessions@.take(i as int));
        let s = &sessions[i];
        let u = (**s).updated_at;
        if (u.secs as i128) < t || ((u.secs as i128) == t && u.nanos < now.nanos) {
            r.push(s);
        }
        assert(r@.map_values(|a: &Arc<Session>| *a) =~= spec_stale(sessions@.take(i + 1), now, days));
        i += 1;
    }
    assert(sessions@.take(i as int) =~= sessions@);
    r
}

/// The sessions last updated more than `days` days before `now`, in their
/// order: `None` exactly where `days` days before `now` lies outside chrono's
/// range, where chrono's subtraction fails.
pub fn find_sessions_to_prune_checked_at<'a>(sessions: &'a [Arc<Session>], days: u64, now: Timestamp) -> (r: Option<
    Vec<&'a Arc<Session>>,
>)
    requires
        delta_days_ok(days),
    ensures
        r is Some <==> secs_in_range(threshold_secs(now, days)),
        r matches Some(v) ==> v@.map_values(|a: &Arc<Session>| *a) == spec_stale(sessions@, now, days),
{
    let d: i128 = if days > 0x7fff_ffff_ffff_ffff {
        days as i128 - 0x1_0000_0000_0000_0000i128
    } else {
        days as i128
    };
    let th: i128 = now.secs as i128 - d * 86400;
    if (MIN_UTC_SECS as i128) <= th && th <= (MAX_UTC_SECS as i128) {
        Some(find_sessions_to_prune_at(sessions, days, now))
    } else {
        None
    }
}

/// The sessions last updated more than `days` days ago, in their order: what
/// [`find_sessions_to_prune_checked_at`] gives at the time the clock reads, or
/// `None` where the clock cannot be read. Which instant it is depends on the
/// clock.
pub fn find_sessions_to_prune<'a>(sessions: &'a [Arc<Session>], days: u64) -> (r: Option<Vec<&'a Arc<Session>>>)
    requires
        delta_days_ok(days),
    ensures
        r matches Some(v) ==> exists|t: Timestamp|
            secs_in_range(threshold_secs(t, days)) && v@.map_values(|a: &Arc<Session>| *a) == spec_stale(sessions@, t, days),
{
    match now() {
        Some(t) => find_sessions_to_prune_checked_at(sessions, days, t),
        None => None,
    }
}

} // verus!
