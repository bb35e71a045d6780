use vstd::prelude::*;
use std::sync::Arc;
use crate::config::Config;
use crate::model::session::{Session, SessionHealth};
use crate::utils::fs::{join_path, spec_join_path};

verus! {

/// The health of the Gemini environment and of the sessions.
#[derive(Debug)]
pub struct DoctorReport {
    pub gemini_base_exists: bool,
    pub sessions_path_exists: bool,
    pub trash_path_exists: bool,
    pub total_sessions: usize,
    pub orphaned_count: usize,
    pub corrupted_count: usize,
    pub untrusted_count: usize,
    pub untracked_hosts_count: usize,
}

/// How many of the sessions have health `h`.
pub open spec fn count_health(ss: Seq<Arc<Session>>, h: SessionHealth) -> nat
    decreases ss.len(),
{
    if ss.len() == 0 {
        0
    } else {
        count_health(ss.drop_last(), h) + if ss.last().health == h { 1nat } else { 0nat }
    }
}

/// How many of the sessions have no host project recorded.
pub open spec fn count_untracked(ss: Seq<Arc<Session>>) -> nat
    decreases ss.len(),
{
    if ss.len() == 0 {
        0
    } else {
        count_untracked(ss.drop_last()) + if ss.last().host_path is None { 1nat } else { 0nat }
    }
}

/// The untracked count counts the sessions with no host project: one session
/// counts one exactly where it has no host, and two lists one after the other
/// count the sum of their counts.
pub proof fn lemma_untracked_additive(ss: Seq<Arc<Session>>, tt: Seq<Arc<Session>>, s: Arc<Session>)
    ensures
        count_untracked(seq![s]) == (if s.host_path is None { 1nat } else { 0nat }),
        count_untracked(ss + tt) == count_untracked(ss) + count_untracked(tt),
    decreases tt.len(),
{
    assert(seq![s].drop_last() =~= Seq::<Arc<Session>>::empty());
    assert(count_untracked(Seq::<Arc<Session>>::empty()) == 0);
    assert(seq![s].last() == s);
    assert(count_untracked(seq![s]) == count_untracked(seq![s].drop_last()) + (if s.host_path is None { 1nat } else { 0nat }));
    if tt.len() == 0 {
        assert(ss + tt =~= ss);
    } else {
        lemma_untracked_additive(ss, tt.drop_last(), s);
        assert((ss + tt).drop_last() =~= ss + tt.drop_last());
        assert((ss + tt).last() == tt.last());
    }
}

/// A count of sessions is at most the number of sessions.
pub proof fn lemma_counts_bounded(ss: Seq<Arc<Session>>, h: SessionHealth)
    ensures
        count_health(ss, h) <= ss.len(),
        count_untracked(ss) <= ss.len(),
    decreases ss.len(),
{
    if ss.len() > 0 {
        lemma_counts_bounded(ss.drop_last(), h);
    }
}

/// Each session is counted under at most one health; so the orphaned,
/// corrupted and untrusted sessions together are no more than all of them.
pub proof fn lemma_health_counts_partition(ss: Seq<Arc<Session>>)
    ensures
        count_health(ss, SessionHealth::Warn) + count_health(ss, SessionHealth::Error) + count_health(ss, SessionHealth::Risk)
            <= ss.len(),
    decreases ss.len(),
{
    if ss.len() > 0 {
        lemma_health_counts_partition(ss.drop_last());
    }
}

/// The paths the doctor checks: the Gemini base directory `<home>/.gemini` (with
/// an unset home read as empty), the sessions path and the trash path.
pub open spec fn spec_probe_paths(config: Config, home: Option<Seq<char>>) -> (Seq<char>, Seq<char>, Seq<char>) {
    let h = match home {
        Some(h) => h,
        None => Seq::empty(),
    };
    (spec_join_path(h, ".gemini"@), config.gemini_sessions_path@, config.trash_path@)
}

impl DoctorReport {
    /// The paths whose existence the report records, in the order of the
    /// arguments of [`Self::generate`].
    pub fn probe_paths(config: &Config, home: Option<&str>) -> (r: (String, String, String))
        ensures
            (r.0@, r.1@, r.2@) == spec_probe_paths(*config, crate::utils::text::opt_str_view(home)),
    {
        let h: &str = match home {
            Some(h) => h,
            None => "",
        };
        proof { reveal_strlit(""); }
        (join_path(h, ".gemini"), config.gemini_sessions_path.clone(), config.trash_path.clone())
    }

    /// The report on `sessions`, given whether the probed paths exist.
    pub fn generate(
        sessions: &[Arc<Session>],
        gemini_base_exists: bool,
        sessions_path_exists: bool,
        trash_path_exists: bool,
    ) -> (r: DoctorReport)
        ensures
            r.gemini_base_exists == gemini_base_exists,
            r.sessions_path_exists == sessions_path_exists,
            r.trash_path_exists == trash_path_exists,
            r.total_sessions == sessions@.len(),
            r.orphaned_count == count_health(sessions@, SessionHealth::Warn),
            r.corrupted_count == count_health(sessions@, SessionHealth::Error),
            r.untrusted_count == count_health(sessions@, SessionHealth::Risk),
            r.untracked_hosts_count == count_untracked(sessions@),
    {
        let mut orphaned: usize = 0;
        let mut corrupted: usize = 0;
        let mut untrusted: usize = 0;
        let mut untracked: usize = 0;
        let mut i: usize = 0;
        while i < sessions.len()
            invariant
                i <= sessions@.len(),
                orphaned == count_health(sessions@.take(i as int), SessionHealth::Warn),
                corrupted == count_health(sessions@.take(i as int), SessionHealth::Error),
                untrusted == count_health(sessions@.take(i as int), SessionHealth::Risk),
                untracked == count_untracked(sessions@.take(i as int)),
            decreases sessions.len() - i,
        {
            assert(sessions@.take(i + 1).drop_last() =~= sessions@.take(i as int));
            proof {
                lemma_counts_bounded(sessions@.take(i as int), SessionHealth::Warn);
                lemma_counts_bounded(sessions@.take(i as int), SessionHealth::Error);
                lemma_counts_bounded(sessions@.take(i as int), SessionHealth::Risk);
            }
            match sessions[i].health {
                SessionHealth::Warn => orphaned += 1,
                SessionHealth::Error => corrupted += 1,
                SessionHealth::Risk => untrusted += 1,
                _ => {},
            }
            if sessions[i].host_path.is_none() {
                untracked += 1;
            }
            i += 1;
        }
        assert(sessions@.take(i as int) =~= sessions@);
        DoctorReport {
            gemini_base_exists,
            sessions_path_exists,
            trash_path_exists,
            total_sessions: sessions.len(),
            orphaned_count: orphaned,
            corrupted_count: corrupted,
            untrusted_count: untrusted,
            untracked_hosts_count: untracked,
        }
    }
}

} // verus!
