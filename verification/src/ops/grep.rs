use vstd::prelude::*;
use std::sync::Arc;
use crate::model::session::Session;
use crate::utils::text::{contains_str, spec_contains, to_lowercase, lowercase};

verus! {

/// Whether a session's text matches the pattern, ignoring case through Unicode
/// lower-casing of both where asked.
pub open spec fn spec_matches(content: Seq<char>, pattern: Seq<char>, ignore_case: bool) -> bool {
    if ignore_case {
        spec_contains(lowercase(content), lowercase(pattern))
    } else {
        spec_contains(content, pattern)
    }
}

/// The sessions, in order, whose texts match.
pub open spec fn spec_hits(ss: Seq<Arc<Session>>, contents: Seq<String>, pattern: Seq<char>, ignore_case: bool) -> Seq<Arc<Session>>
    decreases ss.len(),
{
    if ss.len() == 0 {
        Seq::empty()
    } else {
        let rest = spec_hits(ss.drop_last(), contents.drop_last(), pattern, ignore_case);
        if spec_matches(contents.last()@, pattern, ignore_case) { rest.push(ss.last()) } else { rest }
    }
}

/// Each session a search finds is one of the sessions and has a text that
/// matches.
pub proof fn lemma_hit_matches(ss: Seq<Arc<Session>>, contents: Seq<String>, pattern: Seq<char>, ignore_case: bool, k: int)
    requires
        contents.len() == ss.len(),
        0 <= k < spec_hits(ss, contents, pattern, ignore_case).len(),
    ensures
        exists|i: int| 0 <= i < ss.len() && ss[i] == spec_hits(ss, contents, pattern, ignore_case)[k]
            && spec_matches(contents[i]@, pattern, ignore_case),
    decreases ss.len(),
{
    let r = spec_hits(ss, contents, pattern, ignore_case);
    if ss.len() == 0 {
        assert(r.len() == 0);
    } else {
        let front = ss.drop_last();
        let cf = contents.drop_last();
        let rf = spec_hits(front, cf, pattern, ignore_case);
        let m = spec_matches(contents.last()@, pattern, ignore_case);
        assert(r == if m { rf.push(ss.last()) } else { rf });
        if k < rf.len() {
            lemma_hit_matches(front, cf, pattern, ignore_case, k);
            let w = choose|w: int| 0 <= w < front.len() && front[w] == rf[k] && spec_matches(cf[w]@, pattern, ignore_case);
            assert(ss[w] == front[w] && contents[w] == cf[w]);
            assert(r[k] == rf[k]);
        } else {
            assert(r[k] == ss[ss.len() - 1]);
            assert(contents.last() == contents[contents.len() - 1]);
        }
    }
}

/// A search finds exactly the matching sessions: each session found has a text
/// that matches, and each session whose text matches is found.
pub proof fn lemma_hits_exact(ss: Seq<Arc<Session>>, contents: Seq<String>, pattern: Seq<char>, ignore_case: bool)
    requires
        contents.len() == ss.len(),
    ensures
        spec_hits(ss, contents, pattern, ignore_case).len() <= ss.len(),
        forall|k: int| 0 <= k < spec_hits(ss, contents, pattern, ignore_case).len() ==> exists|i: int|
            0 <= i < ss.len() && ss[i] == #[trigger] spec_hits(ss, contents, pattern, ignore_case)[k]
                && spec_matches(contents[i]@, pattern, ignore_case),
        forall|i: int| 0 <= i < ss.len() && spec_matches(contents[i]@, pattern, ignore_case)
            ==> spec_hits(ss, contents, pattern, ignore_case).contains(#[trigger] ss[i]),
    decreases ss.len(),
{
    assert forall|k: int| 0 <= k < spec_hits(ss, contents, pattern, ignore_case).len() implies exists|i: int|
        0 <= i < ss.len() && ss[i] == #[trigger] spec_hits(ss, contents, pattern, ignore_case)[k]
            && spec_matches(contents[i]@, pattern, ignore_case) by {
        lemma_hit_matches(ss, contents, pattern, ignore_case, k);
    }
    if ss.len() > 0 {
        let front = ss.drop_last();
        let cf = contents.drop_last();
        lemma_hits_exact(front, cf, pattern, ignore_case);
        let r = spec_hits(ss, contents, pattern, ignore_case);
        let rf = spec_hits(front, cf, pattern, ignore_case);
        assert forall|i: int| 0 <= i < ss.len() && spec_matches(contents[i]@, pattern, ignore_case) implies r.contains(#[trigger] ss[i]) by {
            if i < front.len() {
                assert(front[i] == ss[i] && cf[i] == contents[i]);
                assert(rf.contains(front[i]));
                let w = choose|w: int| 0 <= w < rf.len() && rf[w] == front[i];
                assert(r[w] == rf[w]);
            } else {
                assert(r[r.len() - 1] == ss[i]);
            }
        }
    }
}

/// The sessions whose texts (`contents[i]` being the text of `sessions[i]`)
/// contain `pattern`, in order.
pub fn search_sessions<'a>(
    sessions: &'a [Arc<Session>],
    contents: &[String],
    pattern: &str,
    ignore_case: bool,
) -> (r: Vec<&'a Arc<Session>>)
    requires
        contents@.len() == sessions@.len(),
    ensures
        r@.map_values(|a: &Arc<Session>| *a) == spec_hits(sessions@, contents@, pattern@, ignore_case),
{
    let pattern_final = if ignore_case { to_lowercase(pattern) } else { pattern.to_owned() };
    let mut r: Vec<&'a Arc<Session>> = Vec::new();
    let mut i: usize = 0;
    while i < sessions.len()
        invariant
            i <= sessions@.len(),
            contents@.len() == sessions@.len(),
            pattern_final@ == (if ignore_case { lowercase(pattern@) } else { pattern@ }),
            r@.map_values(|a: &Arc<Session>| *a) == spec_hits(sessions@.take(i as int), contents@.take(i as int), pattern@, ignore_case),
        decreases sessions.len() - i,
    {
        assert(sessions@.take(i + 1).drop_last() =~= sessions@.take(i as int));
        assert(contents@.take(i + 1).drop_last() =~= contents@.take(i as int));
        let hit = if ignore_case {
            let lowered = to_lowercase(contents[i].as_str());
            contains_str(lowered.as_str(), pattern_final.as_str())
        } else {
            contains_str(contents[i].as_str(), pattern_final.as_str())
        };
        if hit {
            r.push(&sessions[i]);
        }
        assert(r@.map_values(|a: &Arc<Session>| *a) =~= spec_hits(sessions@.take(i + 1), contents@.take(i + 1), pattern@, ignore_case));
        i += 1;
    }
    assert(sessions@.take(i as int) =~= sessions@);
    assert(contents@.take(i as int) =~= contents@);
    r
}

} // verus!
