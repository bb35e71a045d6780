use vstd::prelude::*;
use std::sync::Arc;
use crate::model::session::Session;

verus! {

/// Disk usage of the sessions and of the trash.
#[derive(Debug)]
pub struct StorageStats {
    pub total_sessions: usize,
    pub total_size_bytes: u64,
    pub trash_size_bytes: u64,
}

/// The summed sizes of the sessions.
pub open spec fn total_size(ss: Seq<Arc<Session>>) -> int
    decreases ss.len(),
{
    if ss.len() == 0 { 0 } else { total_size(ss.drop_last()) + ss.last().size }
}

/// The sizes of a prefix add up to no more than the sizes of the whole list.
pub proof fn lemma_total_size_monotone(ss: Seq<Arc<Session>>, i: int)
    requires
        0 <= i <= ss.len(),
    ensures
        0 <= total_size(ss.take(i)) <= total_size(ss),
    decreases ss.len() - i,
{
    if i < ss.len() {
        lemma_total_size_monotone(ss, i + 1);
        assert(ss.take(i + 1).drop_last() =~= ss.take(i));
    } else {
        assert(ss.take(i) =~= ss);
    }
    lemma_total_size_nonneg(ss.take(i));
}

/// The total size adds up: the total of one session is its size, and the total
/// of two lists one after the other is the sum of their totals.
pub proof fn lemma_total_size_additive(ss: Seq<Arc<Session>>, tt: Seq<Arc<Session>>, s: Arc<Session>)
    ensures
        total_size(seq![s]) == s.size,
        total_size(ss + tt) == total_size(ss) + total_size(tt),
    decreases tt.len(),
{
    assert(seq![s].drop_last() =~= Seq::<Arc<Session>>::empty());
    assert(total_size(Seq::<Arc<Session>>::empty()) == 0);
    assert(seq![s].last() == s);
    assert(total_size(seq![s]) == total_size(seq![s].drop_last()) + s.size);
    if tt.len() == 0 {
        assert(ss + tt =~= ss);
    } else {
        lemma_total_size_additive(ss, tt.drop_last(), s);
        assert((ss + tt).drop_last() =~= ss + tt.drop_last());
        assert((ss + tt).last() == tt.last());
    }
}

/// Summed sizes are never negative.
pub proof fn lemma_total_size_nonneg(ss: Seq<Arc<Session>>)
    ensures
        total_size(ss) >= 0,
    decreases ss.len(),
{
    if ss.len() > 0 {
        lemma_total_size_nonneg(ss.drop_last());
    }
}

impl StorageStats {
    /// The statistics of `sessions`, with `trash_size` the size of the trash
    /// directory where it could be measured (counted as 0 otherwise).
    pub fn calculate(sessions: &[Arc<Session>], trash_size: Option<u64>) -> (r: StorageStats)
        requires
            total_size(sessions@) <= u64::MAX,
        ensures
            r.total_sessions == sessions@.len(),
            r.total_size_bytes == total_size(sessions@),
            r.trash_size_bytes == (match trash_size { Some(t) => t, None => 0 }),
    {
        let mut total: u64 = 0;
        let mut i: usize = 0;
        while i < sessions.len()
            invariant
                i <= sessions@.len(),
                total_size(sessions@) <= u64::MAX,
                total == total_size(sessions@.take(i as int)),
            decreases sessions.len() - i,
        {
            assert(sessions@.take(i + 1).drop_last() =~= sessions@.take(i as int));
            proof { lemma_total_size_monotone(sessions@, i + 1); }
            total = total + sessions[i].size;
            i += 1;
        }
        assert(sessions@.take(i as int) =~= sessions@);
        StorageStats {
            total_sessions: sessions.len(),
            total_size_bytes: total,
            trash_size_bytes: match trash_size {
                Some(t) => t,
                None => 0,
            },
        }
    }
}

} // verus!
