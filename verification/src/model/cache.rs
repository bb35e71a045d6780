use vstd::prelude::*;
use crate::model::session::{SessionHealth, views};
use crate::utils::text::{str_eq, opt_string_view};
use crate::utils::time::Timestamp;

verus! {

/// What validation found for a session file with a given modification time.
#[derive(Debug)]
pub struct CacheEntry {
    pub mtime: Timestamp,
    pub health: SessionHealth,
    pub name: Option<String>,
    pub notes: Vec<String>,
}

/// The model of a cache entry: modification time, health, name and notes.
pub type CacheEntryView = (Timestamp, SessionHealth, Option<Seq<char>>, Seq<Seq<char>>);

impl View for CacheEntry {
    type V = CacheEntryView;

    open spec fn view(&self) -> CacheEntryView {
        (self.mtime, self.health, opt_string_view(self.name), views(self.notes@))
    }
}

/// Copies a list of strings.
pub fn copy_strings(v: &Vec<String>) -> (r: Vec<String>)
    ensures
        views(r@) == views(v@),
{
    let mut r: Vec<String> = Vec::new();
    let mut i: usize = 0;
    while i < v.len()
        invariant
            i <= v@.len(),
            r@.len() == i,
            forall|k: int| 0 <= k < i ==> (#[trigger] r@[k])@ == v@[k]@,
        decreases v.len() - i,
    {
        let c = v[i].clone();
        r.push(c);
        i += 1;
    }
    assert(views(r@) =~= views(v@));
    r
}

/// Copies an optional string.
pub fn copy_opt_string(o: &Option<String>) -> (r: Option<String>)
    ensures
        opt_string_view(r) == opt_string_view(*o),
{
    match o {
        Some(s) => Some(s.clone()),
        None => None,
    }
}

impl CacheEntry {
    /// A copy of the entry.
    pub fn duplicate(&self) -> (r: CacheEntry)
        ensures
            r@ == self@,
    {
        CacheEntry {
            mtime: self.mtime,
            health: self.health,
            name: copy_opt_string(&self.name),
            notes: copy_strings(&self.notes),
        }
    }
}

/// Index of the first entry with key `k`, or -1.
pub open spec fn key_index<V>(es: Seq<(Seq<char>, V)>, k: Seq<char>) -> int
    decreases es.len(),
{
    if es.len() == 0 {
        -1
    } else if es[0].0 == k {
        0
    } else {
        let j = key_index(es.drop_first(), k);
        if j < 0 { -1 } else { j + 1 }
    }
}

/// The key index is -1 or the first position holding the key.
pub proof fn lemma_key_index<V>(es: Seq<(Seq<char>, V)>, k: Seq<char>)
    ensures
        -1 <= key_index(es, k) < es.len(),
        key_index(es, k) >= 0 ==> es[key_index(es, k)].0 == k,
        forall|j: int| 0 <= j < es.len() && (key_index(es, k) < 0 || j < key_index(es, k)) ==> es[j].0 != k,
    decreases es.len(),
{
    if es.len() > 0 && es[0].0 != k {
        lemma_key_index(es.drop_first(), k);
        assert forall|j: int| 0 <= j < es.len() && (key_index(es, k) < 0 || j < key_index(es, k)) implies es[j].0 != k by {
            if j > 0 {
                assert(es[j] == es.drop_first()[j - 1]);
            }
        }
    }
}

/// The value stored under key `k`.
pub open spec fn lookup<V>(es: Seq<(Seq<char>, V)>, k: Seq<char>) -> Option<V> {
    let i = key_index(es, k);
    if i >= 0 { Some(es[i].1) } else { None }
}

/// `es` with `v` stored under `k`: an existing entry is replaced in place, a new
/// key is added at the end.
pub open spec fn store<V>(es: Seq<(Seq<char>, V)>, k: Seq<char>, v: V) -> Seq<(Seq<char>, V)> {
    let i = key_index(es, k);
    if i >= 0 { es.update(i, (k, v)) } else { es.push((k, v)) }
}

/// No key occurs twice.
pub open spec fn keys_distinct<V>(es: Seq<(Seq<char>, V)>) -> bool {
    forall|i: int, j: int| 0 <= i < j < es.len() ==> es[i].0 != es[j].0
}

/// Finds the entry with key `k`.
pub fn find_key<V>(es: &Vec<(String, V)>, k: &str) -> (r: Option<usize>)
    ensures
        match r {
            Some(i) => i == key_index(es@.map_values(|e: (String, V)| (e.0@, e.1)), k@) && i < es@.len(),
            None => key_index(es@.map_values(|e: (String, V)| (e.0@, e.1)), k@) == -1,
        },
{
    let ghost m = es@.map_values(|e: (String, V)| (e.0@, e.1));
    proof { lemma_key_index(m, k@); }
    let mut i: usize = 0;
    while i < es.len()
        invariant
            i <= es@.len(),
            m == es@.map_values(|e: (String, V)| (e.0@, e.1)),
            -1 <= key_index(m, k@) < m.len(),
            key_index(m, k@) >= 0 ==> m[key_index(m, k@)].0 == k@,
            forall|j: int| 0 <= j < m.len() && (key_index(m, k@) < 0 || j < key_index(m, k@)) ==> m[j].0 != k@,
            forall|j: int| 0 <= j < i ==> m[j].0 != k@,
        decreases es.len() - i,
    {
        if str_eq(es[i].0.as_str(), k) {
            assert(m[i as int].0 == k@);
            return Some(i);
        }
        i += 1;
    }
    None
}

/// A persistent record of validation results, keyed by session file path.
#[derive(Debug)]
pub struct MetadataCache {
    pub entries: Vec<(String, CacheEntry)>,
}

impl MetadataCache {
    /// The entries as (path, entry) pairs of models.
    pub open spec fn model(&self) -> Seq<(Seq<char>, CacheEntryView)> {
        self.entries@.map_values(|e: (String, CacheEntry)| (e.0@, e.1@))
    }

    /// Each path occurs once.
    pub open spec fn wf(&self) -> bool {
        keys_distinct(self.model())
    }

    /// An empty cache.
    pub fn new() -> (r: MetadataCache)
        ensures
            r.model().len() == 0,
            r.wf(),
    {
        MetadataCache { entries: Vec::new() }
    }

    /// The entry recorded for `path`, provided it was recorded for the
    /// modification time `mtime`.
    pub fn get(&self, path: &str, mtime: Timestamp) -> (r: Option<CacheEntry>)
        ensures
            match r {
                Some(e) => lookup(self.model(), path@) == Some(e@) && e@.0 == mtime,
                None => !(lookup(self.model(), path@) matches Some(v) && v.0 == mtime),
            },
    {
        let ghost m1 = self.entries@.map_values(|e: (String, CacheEntry)| (e.0@, e.1));
        proof { lemma_key_index(m1, path@); lemma_key_index(self.model(), path@); lemma_key_index_map(self.entries@, path@); }
        match find_key(&self.entries, path) {
            Some(i) => {
                let e = &self.entries[i].1;
                if e.mtime == mtime {
                    Some(e.duplicate())
                } else {
                    None
                }
            },
            None => None,
        }
    }

    /// Records `entry` for `path`, replacing what was recorded for it.
    pub fn update(&mut self, path: String, entry: CacheEntry)
        ensures
            final(self).model() == store(old(self).model(), path@, entry@),
            old(self).wf() ==> final(self).wf(),
    {
        let ghost m1 = self.entries@.map_values(|e: (String, CacheEntry)| (e.0@, e.1));
        proof { lemma_key_index(old(self).model(), path@); lemma_key_index_map(self.entries@, path@); }
        let ghost old_model = self.model();
        match find_key(&self.entries, path.as_str()) {
            Some(i) => {
                self.entries.set(i, (path, entry));
                assert(self.model() =~= store(old_model, path@, entry@));
            },
            None => {
                self.entries.push((path, entry));
                assert(self.model() =~= store(old_model, path@, entry@));
            },
        }
    }
}

/// The key index is the same whether the values are taken as they are or by
/// their models.
pub proof fn lemma_key_index_map(es: Seq<(String, CacheEntry)>, k: Seq<char>)
    ensures
        key_index(es.map_values(|e: (String, CacheEntry)| (e.0@, e.1)), k)
            == key_index(es.map_values(|e: (String, CacheEntry)| (e.0@, e.1@)), k),
    decreases es.len(),
{
    if es.len() > 0 {
        let a = es.map_values(|e: (String, CacheEntry)| (e.0@, e.1));
        let b = es.map_values(|e: (String, CacheEntry)| (e.0@, e.1@));
        assert(a.drop_first() =~= es.drop_first().map_values(|e: (String, CacheEntry)| (e.0@, e.1)));
        assert(b.drop_first() =~= es.drop_first().map_values(|e: (String, CacheEntry)| (e.0@, e.1@)));
        lemma_key_index_map(es.drop_first(), k);
    }
}

/// A value stored under a key is what a lookup of that key gives.
pub proof fn lemma_lookup_store_same<V>(es: Seq<(Seq<char>, V)>, k: Seq<char>, v: V)
    ensures
        lookup(store(es, k, v), k) == Some(v),
{
    lemma_key_index(es, k);
    let s = store(es, k, v);
    lemma_key_index(s, k);
    let i = key_index(es, k);
    if i >= 0 {
        if key_index(s, k) != i {
            assert(s[i].0 == k);
        }
    } else {
        if key_index(s, k) != es.len() {
            assert(s[es.len() as int].0 == k);
        }
    }
}

/// Storing under one key leaves lookups of every other key as they were.
pub proof fn lemma_lookup_store_other<V>(es: Seq<(Seq<char>, V)>, k: Seq<char>, v: V, k2: Seq<char>)
    requires
        k2 != k,
    ensures
        lookup(store(es, k, v), k2) == lookup(es, k2),
{
    lemma_key_index(es, k);
    lemma_key_index(es, k2);
    let s = store(es, k, v);
    lemma_key_index(s, k2);
    let j = key_index(es, k2);
    let j2 = key_index(s, k2);
    if j >= 0 {
        if j2 != j {
            if j2 < 0 || j2 > j {
                assert(s[j].0 == k2);
            } else {
                assert(es[j2].0 == k2);
            }
        }
    } else {
        if j2 >= 0 {
            if j2 < es.len() {
                assert(es[j2].0 == k2);
            }
        }
    }
}

} // verus!
