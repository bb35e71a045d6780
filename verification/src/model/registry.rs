use vstd::prelude::*;
use std::sync::Arc;
use crate::model::cache::{CacheEntry, CacheEntryView, MetadataCache, key_index, lemma_key_index, lookup, store, lemma_lookup_store_same, lemma_lookup_store_other, copy_opt_string, copy_strings};
use crate::model::scanner::Scanner;
use crate::model::session::{Session, SessionHealth, views, spec_validation, spec_validated_name, validation_reaches_clock};
use crate::utils::text::{str_eq, opt_string_view, opt_str_view};
use crate::utils::json::parse_json;
use crate::utils::time::{Timestamp, now, MAX_UTC_SECS};

verus! {

broadcast use vstd::std_specs::vec::group_vec_axioms;

/// The ids of a list of sessions.
pub open spec fn session_ids(ss: Seq<Arc<Session>>) -> Seq<Seq<char>> {
    ss.map_values(|s: Arc<Session>| s.id@)
}

/// The id index of a list of session ids: each id maps to a position holding it,
/// the later position winning, as inserting them in order into a map does.
pub open spec fn spec_index(ids: Seq<Seq<char>>) -> Seq<(Seq<char>, usize)>
    decreases ids.len(),
{
    if ids.len() == 0 {
        Seq::empty()
    } else {
        store(spec_index(ids.drop_last()), ids.last(), (ids.len() - 1) as usize)
    }
}

/// The last position of `id` in `ids`, or -1.
pub open spec fn last_position(ids: Seq<Seq<char>>, id: Seq<char>) -> int
    decreases ids.len(),
{
    if ids.len() == 0 {
        -1
    } else if ids.last() == id {
        ids.len() - 1
    } else {
        last_position(ids.drop_last(), id)
    }
}

/// The first position of a session named `name`, or -1.
pub open spec fn first_named(ss: Seq<Arc<Session>>, name: Seq<char>) -> int
    decreases ss.len(),
{
    if ss.len() == 0 {
        -1
    } else if opt_string_view(ss[0].name) == Some(name) {
        0
    } else {
        let k = first_named(ss.drop_first(), name);
        if k < 0 { -1 } else { k + 1 }
    }
}

/// Stores `v` under `k` in a list of (key, value) pairs.
pub fn store_entry<V>(es: &mut Vec<(String, V)>, k: String, v: V)
    ensures
        final(es)@.map_values(|e: (String, V)| (e.0@, e.1)) == store(
            old(es)@.map_values(|e: (String, V)| (e.0@, e.1)),
            k@,
            v,
        ),
{
    let ghost m = old(es)@.map_values(|e: (String, V)| (e.0@, e.1));
    match crate::model::cache::find_key(es, k.as_str()) {
        Some(i) => {
            let ghost kv = k@;
            es.set(i, (k, v));
            assert(es@.map_values(|e: (String, V)| (e.0@, e.1)) =~= store(m, kv, v));
        },
        None => {
            let ghost kv = k@;
            es.push((k, v));
            assert(es@.map_values(|e: (String, V)| (e.0@, e.1)) =~= store(m, kv, v));
        },
    }
}

/// The sessions in memory, an id index over them, and the validation cache.
pub struct Registry {
    pub sessions: Vec<Arc<Session>>,
    pub session_indices: Vec<(String, usize)>,
    pub scanner: Scanner,
    pub cache: MetadataCache,
    pub cache_path: String,
}

impl Registry {
    /// The id index as (id, position) pairs.
    pub open spec fn index_model(&self) -> Seq<(Seq<char>, usize)> {
        self.session_indices@.map_values(|e: (String, usize)| (e.0@, e.1))
    }

    /// The index is the one the current sessions give.
    pub open spec fn index_current(&self) -> bool {
        self.index_model() == spec_index(session_ids(self.sessions@))
    }

    /// An empty registry over the sessions under `base_path`, with a cache loaded
    /// from `cache_path`.
    pub fn new(base_path: &str, cache_path: &str, cache: MetadataCache) -> (r: Registry)
        ensures
            r.sessions@.len() == 0,
            r.index_model().len() == 0,
            r.index_current(),
            r.scanner.base_path@ == base_path@,
            r.cache_path@ == cache_path@,
            r.cache == cache,
    {
        let r = Registry {
            sessions: Vec::new(),
            session_indices: Vec::new(),
            scanner: Scanner::new(base_path),
            cache,
            cache_path: cache_path.to_owned(),
        };
        assert(session_ids(r.sessions@) =~= Seq::<Seq<char>>::empty());
        assert(r.index_model() =~= Seq::<(Seq<char>, usize)>::empty());
        r
    }

    /// Rebuilds the id index from the sessions.
    pub fn rebuild_index(&mut self)
        ensures
            final(self).index_current(),
            final(self).sessions == old(self).sessions,
            final(self).cache == old(self).cache,
            final(self).scanner == old(self).scanner,
            final(self).cache_path == old(self).cache_path,
    {
        self.session_indices.clear();
        let ghost ids = session_ids(self.sessions@);
        let mut i: usize = 0;
        while i < self.sessions.len()
            invariant
                i <= self.sessions@.len(),
                ids == session_ids(self.sessions@),
                self.sessions == old(self).sessions,
                self.cache == old(self).cache,
                self.scanner == old(self).scanner,
                self.cache_path == old(self).cache_path,
                self.session_indices@.map_values(|e: (String, usize)| (e.0@, e.1)) == spec_index(ids.take(i as int)),
            decreases self.sessions.len() - i,
        {
            let id = self.sessions[i].id.clone();
            assert(ids.take(i + 1).drop_last() =~= ids.take(i as int));
            store_entry(&mut self.session_indices, id, i);
            i += 1;
        }
        assert(ids.take(i as int) =~= ids);
    }

    /// The session the index holds for `id`.
    pub fn find_by_id(&self, id: &str) -> (r: Option<&Arc<Session>>)
        ensures
            match lookup(self.index_model(), id@) {
                Some(i) => if (i as int) < self.sessions@.len() {
                    r == Some(&self.sessions@[i as int])
                } else {
                    r is None
                },
                None => r is None,
            },
    {
        let ghost m = self.index_model();
        match crate::model::cache::find_key(&self.session_indices, id) {
            Some(k) => {
                let i = self.session_indices[k].1;
                assert(m[k as int].1 == i);
                if i < self.sessions.len() {
                    Some(&self.sessions[i])
                } else {
                    None
                }
            },
            None => None,
        }
    }

    /// The session with id `query`, else the first session named `query`.
    pub fn find(&self, query: &str) -> (r: Option<&Arc<Session>>)
        ensures
            match lookup(self.index_model(), query@) {
                Some(i) if (i as int) < self.sessions@.len() => r == Some(&self.sessions@[i as int]),
                _ => if first_named(self.sessions@, query@) >= 0 {
                    r == Some(&self.sessions@[first_named(self.sessions@, query@)])
                } else {
                    r is None
                },
            },
    {
        match self.find_by_id(query) {
            Some(s) => return Some(s),
            None => {},
        }
        let ghost ss = self.sessions@;
        let mut i: usize = 0;
        assert(ss.skip(0) =~= ss);
        while i < self.sessions.len()
            invariant
                i <= ss.len(),
                ss == self.sessions@,
                !(lookup(self.index_model(), query@) matches Some(j) && (j as int) < ss.len()),
                first_named(ss, query@) == if first_named(ss.skip(i as int), query@) < 0 { -1 } else {
                    first_named(ss.skip(i as int), query@) + i
                },
            decreases self.sessions.len() - i,
        {
            assert(ss.skip(i as int).drop_first() =~= ss.skip(i + 1));
            let hit = match &self.sessions[i].name {
                Some(n) => str_eq(n.as_str(), query),
                None => false,
            };
            if hit {
                assert(first_named(ss.skip(i as int), query@) == 0);
                return Some(&self.sessions[i]);
            }
            i += 1;
        }
        None
    }

    /// All sessions.
    pub fn list(&self) -> (r: &[Arc<Session>])
        ensures
            r@ == self.sessions@,
    {
        self.sessions.as_slice()
    }

    /// Gives `s` the health, name and notes that the cache holds for its path and
    /// modification time, if any; says whether it did.
    pub fn apply_cached(&self, s: &mut Session) -> (hit: bool)
        ensures
            hit == (lookup(self.cache.model(), old(s).path@) matches Some(v) && v.0 == old(s).updated_at),
            hit ==> lookup(self.cache.model(), old(s).path@) == Some(
                (final(s).updated_at, final(s).health, opt_string_view(final(s).name), views(final(s).validation_notes@)),
            ),
            !hit ==> *final(s) == *old(s),
            final(s).id == old(s).id,
            final(s).display_id == old(s).display_id,
            final(s).project_id == old(s).project_id,
            final(s).host_path == old(s).host_path,
            final(s).path == old(s).path,
            final(s).created_at == old(s).created_at,
            final(s).updated_at == old(s).updated_at,
            final(s).size == old(s).size,
    {
        match self.cache.get(s.path.as_str(), s.updated_at) {
            Some(e) => {
                s.health = e.health;
                s.name = e.name;
                s.validation_notes = e.notes;
                true
            },
            None => false,
        }
    }

    /// Validates `s` at the time `now` (see [`Session::deep_validate_checked_at`])
    /// and records the outcome in the cache under its path; returns `false`,
    /// changing nothing, exactly where validation reaches the clock and `now`
    /// stands within an hour of the end of chrono's range.
    pub fn validate_and_record_at(&mut self, s: &mut Session, content: Option<&str>, host_exists: bool, now: Timestamp) -> (done: bool)
        ensures
            done == (!validation_reaches_clock(old(s).size, opt_str_view(content)) || now.secs + 3600 <= MAX_UTC_SECS),
            done ==> (final(s).health, views(final(s).validation_notes@)) == spec_validation(
                old(s).size,
                old(s).health,
                opt_string_view(old(s).host_path),
                old(s).updated_at,
                opt_str_view(content),
                host_exists,
                now,
            ),
            done ==> opt_string_view(final(s).name) == spec_validated_name(
                opt_string_view(old(s).name),
                old(s).size,
                opt_str_view(content),
            ),
            done ==> final(self).cache.model() == store(
                old(self).cache.model(),
                old(s).path@,
                (old(s).updated_at, final(s).health, opt_string_view(final(s).name), views(final(s).validation_notes@)),
            ),
            !done ==> *final(s) == *old(s) && final(self).cache == old(self).cache,
            final(self).sessions == old(self).sessions,
            final(self).session_indices == old(self).session_indices,
            final(s).id == old(s).id,
            final(s).path == old(s).path,
            final(s).updated_at == old(s).updated_at,
    {
        if !s.deep_validate_checked_at(content, host_exists, now) {
            return false;
        }
        let entry = CacheEntry {
            mtime: s.updated_at,
            health: s.health,
            name: copy_opt_string(&s.name),
            notes: copy_strings(&s.validation_notes),
        };
        self.cache.update(s.path.clone(), entry);
        true
    }

    /// Validates `s` at the current time and records the outcome: what
    /// [`Registry::validate_and_record_at`] does at the time the clock reads, or,
    /// where validation does not reach the clock, at any time. Returns `false`,
    /// changing nothing, where validation would read the clock and the clock
    /// cannot be read or stands within an hour of the end of chrono's range.
    pub fn validate_and_record(&mut self, s: &mut Session, content: Option<&str>, host_exists: bool) -> (done: bool)
        ensures
            done ==> exists|t: Timestamp|
                (final(s).health, views(final(s).validation_notes@)) == spec_validation(
                    old(s).size,
                    old(s).health,
                    opt_string_view(old(s).host_path),
                    old(s).updated_at,
                    opt_str_view(content),
                    host_exists,
                    t,
                ),
            done ==> opt_string_view(final(s).name) == spec_validated_name(
                opt_string_view(old(s).name),
                old(s).size,
                opt_str_view(content),
            ),
            done ==> final(self).cache.model() == store(
                old(self).cache.model(),
                old(s).path@,
                (old(s).updated_at, final(s).health, opt_string_view(final(s).name), views(final(s).validation_notes@)),
            ),
            !done ==> *final(s) == *old(s) && final(self).cache == old(self).cache,
            !validation_reaches_clock(old(s).size, opt_str_view(content)) ==> done,
            final(self).sessions == old(self).sessions,
            final(self).session_indices == old(self).session_indices,
            final(s).id == old(s).id,
            final(s).path == old(s).path,
            final(s).updated_at == old(s).updated_at,
    {
        let reaches = s.size != 0 && match content {
            Some(c) => parse_json(c).is_ok(),
            None => false,
        };
        let t = if !reaches {
            Timestamp { secs: 0, nanos: 0 }
        } else {
            match now() {
                Some(t) => t,
                None => return false,
            }
        };
        self.validate_and_record_at(s, content, host_exists, t)
    }

    /// Replaces the sessions with `sessions`, in order, and rebuilds the index.
    pub fn install(&mut self, sessions: Vec<Session>)
        ensures
            final(self).sessions@.len() == sessions@.len(),
            forall|i: int| 0 <= i < sessions@.len() ==> *#[trigger] final(self).sessions@[i] == sessions@[i],
            final(self).index_current(),
            final(self).cache == old(self).cache,
    {
        let mut out: Vec<Arc<Session>> = Vec::new();
        let ghost src = sessions@;
        for s in it: sessions.into_iter()
            invariant
                it.seq() == src,
                out@.len() == it.index(),
                forall|k: int| 0 <= k < out@.len() ==> *#[trigger] out@[k] == src[k],
        {
            out.push(Arc::new(s));
        }
        self.sessions = out;
        self.rebuild_index();
    }
}

/// The index holds, for each id, its last position among the sessions.
pub proof fn lemma_index_last_position(ids: Seq<Seq<char>>, id: Seq<char>)
    ensures
        lookup(spec_index(ids), id) == if last_position(ids, id) >= 0 {
            Some(last_position(ids, id) as usize)
        } else {
            None::<usize>
        },
        -1 <= last_position(ids, id) < ids.len(),
        last_position(ids, id) >= 0 ==> ids[last_position(ids, id)] == id,
    decreases ids.len(),
{
    if ids.len() > 0 {
        let rest = ids.drop_last();
        lemma_index_last_position(rest, id);
        if ids.last() == id {
            lemma_lookup_store_same(spec_index(rest), id, (ids.len() - 1) as usize);
        } else {
            lemma_lookup_store_other(spec_index(rest), ids.last(), (ids.len() - 1) as usize, id);
            if last_position(rest, id) >= 0 {
                assert(ids[last_position(rest, id)] == rest[last_position(rest, id)]);
            }
        }
    } else {
        lemma_key_index(spec_index(ids), id);
    }
}

/// Looking a session up by id in a current index gives the last session with that
/// id, or nothing where no session has it.
pub proof fn lemma_find_by_id_is_last(r: &Registry, id: Seq<char>)
    requires
        r.index_current(),
    ensures
        lookup(r.index_model(), id) == if last_position(session_ids(r.sessions@), id) >= 0 {
            Some(last_position(session_ids(r.sessions@), id) as usize)
        } else {
            None::<usize>
        },
        last_position(session_ids(r.sessions@), id) < r.sessions@.len(),
        last_position(session_ids(r.sessions@), id) >= 0 ==> r.sessions@[last_position(session_ids(r.sessions@), id)].id@ == id,
{
    lemma_index_last_position(session_ids(r.sessions@), id);
}

/// A recorded validation is reused until the file changes: after a validation
/// of the file at `path` with modification time `mtime` was recorded, applying
/// the cache to a session at that path hits exactly when its modification time
/// is still `mtime`, and then gives back the recorded health, name and notes.
pub proof fn lemma_recorded_validation_reused(
    cache: Seq<(Seq<char>, CacheEntryView)>,
    path: Seq<char>,
    recorded: CacheEntryView,
    mtime: Timestamp,
)
    ensures
        (lookup(store(cache, path, recorded), path) matches Some(v) && v.0 == mtime) <==> mtime == recorded.0,
        lookup(store(cache, path, recorded), path) == Some(recorded),
{
    lemma_lookup_store_same(cache, path, recorded);
}

} // verus!
