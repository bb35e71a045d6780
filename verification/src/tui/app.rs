use vstd::prelude::*;
use std::sync::Arc;
use crate::model::cache::{key_index, lemma_key_index, lookup, keys_distinct};
use crate::model::registry::{Registry, session_ids, spec_index};
use crate::model::session::Session;
use crate::ops::executor::Executor;
use crate::utils::fs::format_host;
use crate::utils::term::spec_project_display;
use crate::utils::text::{seq_lt, str_lt, str_eq, opt_str_view, opt_string_view};
use crate::utils::time::{Timestamp, spec_before, time_ok, format_time, time_label};

verus! {

/// What the keyboard currently does.
#[derive(Clone, Copy, Debug, PartialEq, Eq, Structural)]
pub enum InputMode {
    Normal,
    ConfirmDelete,
}

/// How sessions are grouped in the tree.
#[derive(Clone, Copy, Debug, PartialEq, Eq, Structural)]
pub enum GroupingMode {
    /// By host project, groups in ascending order.
    Host,
    /// By month of last update, newest month first.
    Month,
}

impl Default for GroupingMode {
    fn default() -> (r: GroupingMode)
        ensures
            r == GroupingMode::Host,
    {
        GroupingMode::Host
    }
}

/// A row of the tree: a group heading, or a session by id.
#[derive(Clone, Debug, PartialEq)]
pub enum Selection {
    Group(String),
    Session(String),
}

/// The model of a tree row.
pub enum SelectionView {
    Group(Seq<char>),
    Session(Seq<char>),
}

impl View for Selection {
    type V = SelectionView;

    open spec fn view(&self) -> SelectionView {
        match self {
            Selection::Group(g) => SelectionView::Group(g@),
            Selection::Session(s) => SelectionView::Session(s@),
        }
    }
}

/// Which row of the tree is selected.
#[derive(Clone, Copy, Debug, PartialEq, Eq, Structural)]
pub struct ListState {
    pub selected: Option<usize>,
}

impl ListState {
    /// Nothing selected.
    pub fn new() -> (r: ListState)
        ensures
            r.selected is None,
    {
        ListState { selected: None }
    }

    /// The selected row.
    pub fn selected(&self) -> (r: Option<usize>)
        ensures
            r == self.selected,
    {
        self.selected
    }

    /// Selects a row, or nothing.
    pub fn select(&mut self, index: Option<usize>)
        ensures
            final(self).selected == index,
    {
        self.selected = index;
    }
}

/// The group a session falls in: its host project for display, or the month of
/// its last update.
pub open spec fn spec_group_key(s: Session, mode: GroupingMode, home: Option<Seq<char>>) -> Seq<char> {
    match mode {
        GroupingMode::Host => spec_project_display(s, home),
        GroupingMode::Month => time_label(s.updated_at.secs as int, s.updated_at.nanos as int, "%Y-%m"@),
    }
}

/// Whether group key `a` comes before `b`: ascending for hosts, descending for
/// months.
pub open spec fn key_before(a: Seq<char>, b: Seq<char>, mode: GroupingMode) -> bool {
    match mode {
        GroupingMode::Host => seq_lt(a, b),
        GroupingMode::Month => seq_lt(b, a),
    }
}

/// The position at which `k` goes into the ordered `sorted`: before the first key
/// it comes before.
pub open spec fn key_insert_pos(sorted: Seq<Seq<char>>, k: Seq<char>, mode: GroupingMode) -> int
    decreases sorted.len(),
{
    if sorted.len() == 0 {
        0
    } else if key_before(k, sorted[0], mode) {
        0
    } else {
        1 + key_insert_pos(sorted.drop_first(), k, mode)
    }
}

/// The group keys in display order.
pub open spec fn sort_keys(keys: Seq<Seq<char>>, mode: GroupingMode) -> Seq<Seq<char>>
    decreases keys.len(),
{
    if keys.len() == 0 {
        Seq::empty()
    } else {
        let s = sort_keys(keys.drop_last(), mode);
        s.insert(key_insert_pos(s, keys.last(), mode), keys.last())
    }
}

/// The position at which session `x` goes into `sorted` (positions into `ss`),
/// newest first: before the first session updated strictly earlier.
pub open spec fn session_insert_pos(ss: Seq<Arc<Session>>, sorted: Seq<usize>, x: usize) -> int
    decreases sorted.len(),
{
    if sorted.len() == 0 {
        0
    } else if spec_before(ss[sorted[0] as int].updated_at, ss[x as int].updated_at) {
        0
    } else {
        1 + session_insert_pos(ss, sorted.drop_first(), x)
    }
}

/// The sessions of a group, newest first; sessions updated at the same time keep
/// their order.
pub open spec fn sort_sessions(ss: Seq<Arc<Session>>, idxs: Seq<usize>) -> Seq<usize>
    decreases idxs.len(),
{
    if idxs.len() == 0 {
        Seq::empty()
    } else {
        let s = sort_sessions(ss, idxs.drop_last());
        s.insert(session_insert_pos(ss, s, idxs.last()), idxs.last())
    }
}

/// The rows of a group's sessions.
pub open spec fn session_rows(ss: Seq<Arc<Session>>, idxs: Seq<usize>) -> Seq<SelectionView> {
    idxs.map_values(|i: usize| SelectionView::Session(ss[i as int].id@))
}

/// The rows of the tree: each group heading followed by its sessions, unless
/// the group is folded.
pub open spec fn spec_rows(
    groups: Seq<Seq<char>>,
    gm: Seq<(Seq<char>, Seq<usize>)>,
    ss: Seq<Arc<Session>>,
    folded: Seq<Seq<char>>,
) -> Seq<SelectionView>
    decreases groups.len(),
{
    if groups.len() == 0 {
        Seq::empty()
    } else {
        let idxs = match lookup(gm, groups.last()) {
            Some(v) => v,
            None => Seq::empty(),
        };
        let shown = if folded.contains(groups.last()) { Seq::empty() } else { session_rows(ss, sort_sessions(ss, idxs)) };
        spec_rows(groups.drop_last(), gm, ss, folded) + seq![SelectionView::Group(groups.last())] + shown
    }
}

/// `gm` with session `idx` appended to group `key`, the group being created where
/// missing.
pub open spec fn add_to_group(gm: Seq<(Seq<char>, Seq<usize>)>, key: Seq<char>, idx: usize) -> Seq<(Seq<char>, Seq<usize>)> {
    let i = key_index(gm, key);
    if i >= 0 {
        gm.update(i, (key, gm[i].1.push(idx)))
    } else {
        gm.push((key, seq![idx]))
    }
}

/// Whether some row is a session.
pub open spec fn has_session_row(items: Seq<SelectionView>) -> bool {
    exists|k: int| 0 <= k < items.len() && items[k] is Session
}

/// One step forward through `n` rows, wrapping around.
pub open spec fn step_fwd(i: int, n: int) -> int {
    if i + 1 >= n { 0 } else { i + 1 }
}

/// One step back through `n` rows, wrapping around.
pub open spec fn step_back(i: int, n: int) -> int {
    if i == 0 { n - 1 } else { i - 1 }
}

/// The first session row among `checks` + 1 rows visited forward from `i`.
pub open spec fn scan_fwd(items: Seq<SelectionView>, i: int, checks: nat) -> Option<int>
    decreases checks,
{
    if items[i] is Session {
        Some(i)
    } else if checks == 0 {
        None
    } else {
        scan_fwd(items, step_fwd(i, items.len() as int), (checks - 1) as nat)
    }
}

/// The first session row among `checks` + 1 rows visited backward from `i`.
pub open spec fn scan_back(items: Seq<SelectionView>, i: int, checks: nat) -> Option<int>
    decreases checks,
{
    if items[i] is Session {
        Some(i)
    } else if checks == 0 {
        None
    } else {
        scan_back(items, step_back(i, items.len() as int), (checks - 1) as nat)
    }
}

/// The selection after moving down: the next session row after the selected
/// row (the first row where none is selected), wrapping around; unchanged where
/// there is none or there are no rows.
pub open spec fn spec_next(items: Seq<SelectionView>, selected: Option<usize>) -> Option<usize> {
    let n = items.len() as int;
    if n == 0 {
        selected
    } else {
        let cur = match selected { Some(c) => c as int, None => 0 };
        match scan_fwd(items, (cur + 1) % n, (n - 1) as nat) {
            Some(k) => Some(k as usize),
            None => selected,
        }
    }
}

/// The selection after moving up: the previous session row before the selected
/// row, wrapping around (a selection past the rows starts from the last row);
/// unchanged where there is none or there are no rows.
pub open spec fn spec_previous(items: Seq<SelectionView>, selected: Option<usize>) -> Option<usize> {
    let n = items.len() as int;
    if n == 0 {
        selected
    } else {
        let cur = match selected { Some(c) => c as int, None => 0 };
        match scan_back(items, if cur == 0 || cur > n { n - 1 } else { cur - 1 }, (n - 1) as nat) {
            Some(k) => Some(k as usize),
            None => selected,
        }
    }
}

/// The id of the session on the selected row.
pub open spec fn spec_selected_id(items: Seq<SelectionView>, selected: Option<usize>) -> Option<Seq<char>> {
    match selected {
        Some(i) => if (i as int) < items.len() {
            match items[i as int] {
                SelectionView::Session(id) => Some(id),
                _ => None,
            }
        } else {
            None
        },
        None => None,
    }
}

/// The state of the terminal interface.
pub struct App {
    pub registry: Registry,
    pub executor: Executor,
    /// The home directory, for showing host paths.
    pub home: Option<String>,
    pub groups: Vec<String>,
    /// The groups, each with the positions of its sessions in `registry.sessions`
    /// in the order they were added.
    pub sessions_by_group: Vec<(String, Vec<usize>)>,
    pub flat_items: Vec<Selection>,
    /// The keys of the folded groups, whose sessions are hidden.
    pub collapsed: Vec<String>,
    pub list_state: ListState,
    pub input_mode: InputMode,
    pub grouping_mode: GroupingMode,
    pub should_quit: bool,
    pub message: Option<String>,
    /// The preview of the selected session, once loaded.
    pub current_preview: Option<String>,
    pub last_selected_id: Option<String>,
}

impl App {
    /// The groups as (key, session positions) pairs.
    pub open spec fn group_model(&self) -> Seq<(Seq<char>, Seq<usize>)> {
        self.sessions_by_group@.map_values(|g: (String, Vec<usize>)| (g.0@, g.1@))
    }

    /// The models of the rows.
    pub open spec fn rows(&self) -> Seq<SelectionView> {
        self.flat_items@.map_values(|s: Selection| s@)
    }

    /// The keys of the folded groups.
    pub open spec fn folded(&self) -> Seq<Seq<char>> {
        texts(self.collapsed@)
    }

    /// The group headings.
    pub open spec fn group_keys(&self) -> Seq<Seq<char>> {
        self.groups@.map_values(|g: String| g@)
    }

    /// The state the interface keeps consistent: the id index is current, every
    /// session's time is one chrono can show, and each group holds at least one
    /// session, each of which exists.
    pub open spec fn wf(&self) -> bool {
        &&& self.registry.index_current()
        &&& forall|i: int| 0 <= i < self.registry.sessions@.len()
            ==> time_ok(#[trigger] self.registry.sessions@[i].updated_at)
        &&& forall|g: int| 0 <= g < self.group_model().len() ==> (#[trigger] self.group_model()[g]).1.len() > 0
        &&& forall|g: int, j: int| 0 <= g < self.group_model().len() && 0 <= j < self.group_model()[g].1.len()
            ==> (#[trigger] self.group_model()[g].1[j] as int) < self.registry.sessions@.len()
    }
}

/// The texts of a list of strings.
pub open spec fn texts(v: Seq<String>) -> Seq<Seq<char>> {
    v.map_values(|s: String| s@)
}

/// Whether key `a` comes before key `b` in `mode`.
fn key_before_exec(a: &str, b: &str, mode: GroupingMode) -> (r: bool)
    ensures
        r == key_before(a@, b@, mode),
{
    match mode {
        GroupingMode::Host => str_lt(a, b),
        GroupingMode::Month => str_lt(b, a),
    }
}

/// Where key `k` goes into the ordered keys `sorted`.
fn key_pos(sorted: &Vec<String>, k: &str, mode: GroupingMode) -> (r: usize)
    ensures
        r as int == key_insert_pos(texts(sorted@), k@, mode),
        r <= sorted@.len(),
{
    let ghost t = texts(sorted@);
    let mut j: usize = 0;
    assert(t.skip(0) =~= t);
    while j < sorted.len() && !key_before_exec(k, sorted[j].as_str(), mode)
        invariant
            j <= sorted@.len(),
            t == texts(sorted@),
            key_insert_pos(t, k@, mode) == j + key_insert_pos(t.skip(j as int), k@, mode),
        decreases sorted.len() - j,
    {
        assert(t.skip(j as int)[0] == sorted@[j as int]@);
        assert(t.skip(j as int).drop_first() =~= t.skip(j + 1));
        j += 1;
    }
    if j < sorted.len() {
        assert(t.skip(j as int)[0] == sorted@[j as int]@);
    } else {
        assert(t.skip(j as int) =~= Seq::<Seq<char>>::empty());
    }
    j
}

/// The group keys `keys` in display order.
pub(crate) fn sort_group_keys(keys: &Vec<String>, mode: GroupingMode) -> (r: Vec<String>)
    ensures
        texts(r@) == sort_keys(texts(keys@), mode),
{
    let mut sorted: Vec<String> = Vec::new();
    let mut i: usize = 0;
    while i < keys.len()
        invariant
            i <= keys@.len(),
            texts(sorted@) == sort_keys(texts(keys@.take(i as int)), mode),
        decreases keys.len() - i,
    {
        assert(texts(keys@.take(i + 1)).drop_last() =~= texts(keys@.take(i as int)));
        let p = key_pos(&sorted, keys[i].as_str(), mode);
        let k = keys[i].clone();
        let ghost before = texts(sorted@);
        sorted.insert(p, k);
        assert(texts(sorted@) =~= before.insert(p as int, keys@[i as int]@));
        i += 1;
    }
    assert(keys@.take(i as int) =~= keys@);
    sorted
}

/// Where session `x` goes into the newest-first order `sorted`.
fn session_pos(ss: &Vec<Arc<Session>>, sorted: &Vec<usize>, x: usize) -> (r: usize)
    requires
        (x as int) < ss@.len(),
        forall|j: int| 0 <= j < sorted@.len() ==> (#[trigger] sorted@[j] as int) < ss@.len(),
    ensures
        r as int == session_insert_pos(ss@, sorted@, x),
        r <= sorted@.len(),
{
    let mut j: usize = 0;
    assert(sorted@.skip(0) =~= sorted@);
    let ux = ss[x].updated_at;
    while j < sorted.len() && !ss[sorted[j]].updated_at.is_before(&ux)
        invariant
            j <= sorted@.len(),
            (x as int) < ss@.len(),
            ux == ss@[x as int].updated_at,
            forall|k: int| 0 <= k < sorted@.len() ==> (#[trigger] sorted@[k] as int) < ss@.len(),
            session_insert_pos(ss@, sorted@, x) == j + session_insert_pos(ss@, sorted@.skip(j as int), x),
        decreases sorted.len() - j,
    {
        assert(sorted@.skip(j as int).drop_first() =~= sorted@.skip(j + 1));
        j += 1;
    }
    if j == sorted.len() {
        assert(sorted@.skip(j as int) =~= Seq::<usize>::empty());
    }
    j
}

/// Ordering a group's sessions keeps their number and adds none.
pub proof fn lemma_sort_sessions_members(ss: Seq<Arc<Session>>, idxs: Seq<usize>)
    ensures
        sort_sessions(ss, idxs).len() == idxs.len(),
        forall|j: int| 0 <= j < sort_sessions(ss, idxs).len() ==> idxs.contains(#[trigger] sort_sessions(ss, idxs)[j]),
    decreases idxs.len(),
{
    if idxs.len() > 0 {
        let rest = idxs.drop_last();
        lemma_sort_sessions_members(ss, rest);
        let s = sort_sessions(ss, rest);
        lemma_session_insert_pos_bound(ss, s, idxs.last());
        let p = session_insert_pos(ss, s, idxs.last());
        let r = s.insert(p, idxs.last());
        assert forall|j: int| 0 <= j < r.len() implies idxs.contains(#[trigger] r[j]) by {
            if j < p {
                assert(rest.contains(s[j]));
                let w = choose|w: int| 0 <= w < rest.len() && rest[w] == s[j];
                assert(idxs[w] == s[j]);
            } else if j == p {
                assert(idxs[idxs.len() - 1] == r[j]);
            } else {
                assert(rest.contains(s[j - 1]));
                let w = choose|w: int| 0 <= w < rest.len() && rest[w] == s[j - 1];
                assert(idxs[w] == s[j - 1]);
            }
        }
    }
}

/// A session's place lies within the ordered sessions or right after them.
pub proof fn lemma_session_insert_pos_bound(ss: Seq<Arc<Session>>, sorted: Seq<usize>, x: usize)
    ensures
        0 <= session_insert_pos(ss, sorted, x) <= sorted.len(),
    decreases sorted.len(),
{
    if sorted.len() > 0 {
        lemma_session_insert_pos_bound(ss, sorted.drop_first(), x);
    }
}

/// The sessions `idxs` (positions into `ss`) newest first.
fn sort_group_sessions(ss: &Vec<Arc<Session>>, idxs: &Vec<usize>) -> (r: Vec<usize>)
    requires
        forall|j: int| 0 <= j < idxs@.len() ==> (#[trigger] idxs@[j] as int) < ss@.len(),
    ensures
        r@ == sort_sessions(ss@, idxs@),
{
    let mut sorted: Vec<usize> = Vec::new();
    let mut i: usize = 0;
    while i < idxs.len()
        invariant
            i <= idxs@.len(),
            forall|j: int| 0 <= j < idxs@.len() ==> (#[trigger] idxs@[j] as int) < ss@.len(),
            sorted@ == sort_sessions(ss@, idxs@.take(i as int)),
        decreases idxs.len() - i,
    {
        assert(idxs@.take(i + 1).drop_last() =~= idxs@.take(i as int));
        proof {
            lemma_sort_sessions_members(ss@, idxs@.take(i as int));
            assert forall|j: int| 0 <= j < sorted@.len() implies (#[trigger] sorted@[j] as int) < ss@.len() by {
                assert(idxs@.take(i as int).contains(sorted@[j]));
            }
        }
        let p = session_pos(ss, &sorted, idxs[i]);
        sorted.insert(p, idxs[i]);
        i += 1;
    }
    assert(idxs@.take(i as int) =~= idxs@);
    sorted
}

/// A key's place lies within the ordered keys or right after them.
pub proof fn lemma_key_insert_pos_bound(sorted: Seq<Seq<char>>, k: Seq<char>, mode: GroupingMode)
    ensures
        0 <= key_insert_pos(sorted, k, mode) <= sorted.len(),
    decreases sorted.len(),
{
    if sorted.len() > 0 {
        lemma_key_insert_pos_bound(sorted.drop_first(), k, mode);
    }
}

/// Ordering the keys keeps their number and adds none.
pub proof fn lemma_sort_keys_members(keys: Seq<Seq<char>>, mode: GroupingMode)
    ensures
        sort_keys(keys, mode).len() == keys.len(),
        forall|j: int| 0 <= j < sort_keys(keys, mode).len() ==> keys.contains(#[trigger] sort_keys(keys, mode)[j]),
    decreases keys.len(),
{
    if keys.len() > 0 {
        let rest = keys.drop_last();
        lemma_sort_keys_members(rest, mode);
        let s = sort_keys(rest, mode);
        lemma_key_insert_pos_bound(s, keys.last(), mode);
        let p = key_insert_pos(s, keys.last(), mode);
        let r = s.insert(p, keys.last());
        assert forall|j: int| 0 <= j < r.len() implies keys.contains(#[trigger] r[j]) by {
            if j < p {
                assert(rest.contains(s[j]));
                let w = choose|w: int| 0 <= w < rest.len() && rest[w] == s[j];
                assert(keys[w] == s[j]);
            } else if j == p {
                assert(keys[keys.len() - 1] == r[j]);
            } else {
                assert(rest.contains(s[j - 1]));
                let w = choose|w: int| 0 <= w < rest.len() && rest[w] == s[j - 1];
                assert(keys[w] == s[j - 1]);
            }
        }
    }
}

/// The keys of a list of (key, value) pairs.
pub open spec fn keys_of<V>(gm: Seq<(Seq<char>, V)>) -> Seq<Seq<char>> {
    gm.map_values(|e: (Seq<char>, V)| e.0)
}

/// The key index depends on the keys alone.
pub proof fn lemma_key_index_same_keys<A, B>(a: Seq<(Seq<char>, A)>, b: Seq<(Seq<char>, B)>, k: Seq<char>)
    requires
        a.len() == b.len(),
        forall|i: int| 0 <= i < a.len() ==> a[i].0 == b[i].0,
    ensures
        key_index(a, k) == key_index(b, k),
    decreases a.len(),
{
    if a.len() > 0 {
        lemma_key_index_same_keys(a.drop_first(), b.drop_first(), k);
    }
}

/// The rows of a group's sessions, appended.
fn push_session_rows(rows: &mut Vec<Selection>, ss: &Vec<Arc<Session>>, idxs: &Vec<usize>)
    requires
        forall|j: int| 0 <= j < idxs@.len() ==> (#[trigger] idxs@[j] as int) < ss@.len(),
    ensures
        final(rows)@.map_values(|x: Selection| x@) == old(rows)@.map_values(|x: Selection| x@) + session_rows(ss@, idxs@),
{
    let ghost start = old(rows)@.map_values(|x: Selection| x@);
    let mut i: usize = 0;
    while i < idxs.len()
        invariant
            i <= idxs@.len(),
            forall|j: int| 0 <= j < idxs@.len() ==> (#[trigger] idxs@[j] as int) < ss@.len(),
            rows@.map_values(|x: Selection| x@) == start + session_rows(ss@, idxs@.take(i as int)),
        decreases idxs.len() - i,
    {
        let id = ss[idxs[i]].id.clone();
        let ghost prev = rows@;
        rows.push(Selection::Session(id));
        assert(rows@ == prev.push(Selection::Session(id)));
        assert(rows@.map_values(|x: Selection| x@) =~= prev.map_values(|x: Selection| x@).push(
            SelectionView::Session(ss@[idxs@[i as int] as int].id@),
        ));
        assert(session_rows(ss@, idxs@.take(i + 1)) =~= session_rows(ss@, idxs@.take(i as int)).push(
            SelectionView::Session(ss@[idxs@[i as int] as int].id@),
        ));
        assert(rows@.map_values(|x: Selection| x@) =~= start + session_rows(ss@, idxs@.take(i + 1)));
        i += 1;
    }
    assert(idxs@.take(i as int) =~= idxs@);
}

/// Whether `g` is among the folded groups.
fn is_folded(folded: &Vec<String>, g: &str) -> (r: bool)
    ensures
        r == texts(folded@).contains(g@),
{
    let mut i: usize = 0;
    while i < folded.len()
        invariant
            i <= folded@.len(),
            forall|j: int| 0 <= j < i ==> folded@[j]@ != g@,
        decreases folded.len() - i,
    {
        if str_eq(folded[i].as_str(), g) {
            assert(texts(folded@)[i as int] == g@);
            return true;
        }
        i += 1;
    }
    assert forall|j: int| 0 <= j < texts(folded@).len() implies texts(folded@)[j] != g@ by {
        assert(texts(folded@)[j] == folded@[j]@);
    }
    false
}

/// The rows of the tree for the ordered `groups`.
fn build_rows(
    groups: &Vec<String>,
    by_group: &Vec<(String, Vec<usize>)>,
    ss: &Vec<Arc<Session>>,
    folded: &Vec<String>,
) -> (r: Vec<Selection>)
    requires
        forall|g: int, j: int| 0 <= g < by_group@.len() && 0 <= j < by_group@[g].1@.len()
            ==> (#[trigger] by_group@[g].1@[j] as int) < ss@.len(),
    ensures
        r@.map_values(|x: Selection| x@) == spec_rows(
            texts(groups@),
            by_group@.map_values(|g: (String, Vec<usize>)| (g.0@, g.1@)),
            ss@,
            texts(folded@),
        ),
{
    let ghost gm = by_group@.map_values(|g: (String, Vec<usize>)| (g.0@, g.1@));
    let ghost gx = by_group@.map_values(|g: (String, Vec<usize>)| (g.0@, g.1));
    let mut rows: Vec<Selection> = Vec::new();
    let mut i: usize = 0;
    while i < groups.len()
        invariant
            i <= groups@.len(),
            gm == by_group@.map_values(|g: (String, Vec<usize>)| (g.0@, g.1@)),
            gx == by_group@.map_values(|g: (String, Vec<usize>)| (g.0@, g.1)),
            forall|g: int, j: int| 0 <= g < by_group@.len() && 0 <= j < by_group@[g].1@.len()
                ==> (#[trigger] by_group@[g].1@[j] as int) < ss@.len(),
            rows@.map_values(|x: Selection| x@) == spec_rows(texts(groups@.take(i as int)), gm, ss@, texts(folded@)),
        decreases groups.len() - i,
    {
        assert(texts(groups@.take(i + 1)).drop_last() =~= texts(groups@.take(i as int)));
        assert(texts(groups@.take(i + 1)).last() == groups@[i as int]@);
        rows.push(Selection::Group(groups[i].clone()));
        proof {
            lemma_key_index_same_keys(gx, gm, groups@[i as int]@);
            lemma_key_index(gm, groups@[i as int]@);
        }
        let hidden = is_folded(folded, groups[i].as_str());
        match crate::model::cache::find_key(by_group, groups[i].as_str()) {
            Some(k) => if !hidden {
                let idxs = &by_group[k].1;
                assert(gm[k as int].1 == idxs@);
                let sorted = sort_group_sessions(ss, idxs);
                proof {
                    lemma_sort_sessions_members(ss@, idxs@);
                    assert forall|j: int| 0 <= j < sorted@.len() implies (#[trigger] sorted@[j] as int) < ss@.len() by {
                        assert(idxs@.contains(sorted@[j]));
                    }
                }
                push_session_rows(&mut rows, ss, &sorted);
            },
            None => {
                assert(sort_sessions(ss@, Seq::<usize>::empty()) =~= Seq::<usize>::empty());
                assert(session_rows(ss@, Seq::<usize>::empty()) =~= Seq::<SelectionView>::empty());
            },
        }
        i += 1;
    }
    assert(groups@.take(i as int) =~= groups@);
    rows
}

/// The remembered selection and preview after the selection changed: a new
/// selected session id clears the preview.
pub open spec fn spec_after_selection(
    rows: Seq<SelectionView>,
    selected: Option<usize>,
    last_id: Option<Seq<char>>,
    preview: Option<Seq<char>>,
) -> (Option<Seq<char>>, Option<Seq<char>>) {
    let cur = spec_selected_id(rows, selected);
    if cur != last_id { (cur, None) } else { (last_id, preview) }
}

/// The successor of `cur` among `n` rows, `(cur + 1) % n`.
fn succ_mod(cur: usize, n: usize) -> (r: usize)
    requires
        n > 0,
    ensures
        r as int == (cur as int + 1) % (n as int),
        r < n,
{
    proof {
        vstd::arithmetic::div_mod::lemma_add_mod_noop(cur as int, 1, n as int);
        vstd::arithmetic::div_mod::lemma_mod_bound(cur as int, n as int);
        vstd::arithmetic::div_mod::lemma_mod_self_0(n as int);
        if n > 1 {
            vstd::arithmetic::div_mod::lemma_small_mod(1, n as nat);
        } else {
            vstd::arithmetic::div_mod::lemma_mod_self_0(1);
        }
    }
    let m = cur % n;
    if m + 1 == n {
        proof { vstd::arithmetic::div_mod::lemma_mod_self_0(n as int); }
        0
    } else {
        proof {
            vstd::arithmetic::div_mod::lemma_small_mod((m + 1) as nat, n as nat);
            if n == 1 {
                assert(m == 0);
            }
        }
        m + 1
    }
}

/// Whether a row is a session row.
fn is_session_row(items: &Vec<Selection>, i: usize) -> (r: bool)
    requires
        i < items@.len(),
    ensures
        r == (items@[i as int]@ is Session),
{
    match &items[i] {
        Selection::Session(_) => true,
        Selection::Group(_) => false,
    }
}

/// Compares two optional texts.
fn opt_str_eq(a: &Option<String>, b: &Option<String>) -> (r: bool)
    ensures
        r == (opt_string_view(*a) == opt_string_view(*b)),
{
    match (a, b) {
        (Some(x), Some(y)) => str_eq(x.as_str(), y.as_str()),
        (None, None) => true,
        _ => false,
    }
}

impl App {
    /// A fresh interface over `registry` (whose sessions are loaded later),
    /// performing operations with `executor`; `home` is the home directory used
    /// to show host paths.
    pub fn new(registry: Registry, executor: Executor, home: Option<String>) -> (r: App)
        ensures
            r.registry == registry,
            r.executor == executor,
            r.home == home,
            r.groups@.len() == 0,
            r.sessions_by_group@.len() == 0,
            r.flat_items@.len() == 0,
            r.collapsed@.len() == 0,
            r.list_state.selected is None,
            r.input_mode == InputMode::Normal,
            r.grouping_mode == GroupingMode::Host,
            !r.should_quit,
            r.message is None,
            r.current_preview is None,
            r.last_selected_id is None,
            registry.index_current() && (forall|i: int| 0 <= i < registry.sessions@.len()
                ==> time_ok(#[trigger] registry.sessions@[i].updated_at)) ==> r.wf(),
    {
        let r = App {
            registry,
            executor,
            home,
            groups: Vec::new(),
            sessions_by_group: Vec::new(),
            flat_items: Vec::new(),
            collapsed: Vec::new(),
            list_state: ListState::new(),
            input_mode: InputMode::Normal,
            grouping_mode: GroupingMode::Host,
            should_quit: false,
            message: None,
            current_preview: None,
            last_selected_id: None,
        };
        assert(r.group_model() =~= Seq::<(Seq<char>, Seq<usize>)>::empty());
        assert(r.rows() =~= Seq::<SelectionView>::empty());
        r
    }

    /// Takes a loaded preview of session `id`: it is shown only while that
    /// session is still the selected one.
    pub fn apply_preview(&mut self, id: &str, content: String)
        ensures
            opt_string_view(old(self).last_selected_id) == Some(id@) ==> final(self).current_preview == Some(content),
            opt_string_view(old(self).last_selected_id) != Some(id@) ==> final(self).current_preview == old(self).current_preview,
            *final(self) == (App { current_preview: final(self).current_preview, ..*old(self) }),
    {
        let same = match &self.last_selected_id {
            Some(l) => str_eq(l.as_str(), id),
            None => false,
        };
        if same {
            self.current_preview = Some(content);
        }
    }

    /// Remembers the session id of the selected row; a change of it clears the
    /// preview.
    pub fn update_selection_id(&mut self)
        ensures
            (opt_string_view(final(self).last_selected_id), opt_string_view(final(self).current_preview))
                == spec_after_selection(
                old(self).rows(),
                old(self).list_state.selected,
                opt_string_view(old(self).last_selected_id),
                opt_string_view(old(self).current_preview),
            ),
            final(self).registry == old(self).registry,
            final(self).executor == old(self).executor,
            final(self).home == old(self).home,
            final(self).groups == old(self).groups,
            final(self).sessions_by_group == old(self).sessions_by_group,
            final(self).flat_items == old(self).flat_items,
            final(self).collapsed == old(self).collapsed,
            final(self).list_state == old(self).list_state,
            final(self).input_mode == old(self).input_mode,
            final(self).grouping_mode == old(self).grouping_mode,
            final(self).should_quit == old(self).should_quit,
            final(self).message == old(self).message,
    {
        let current_id: Option<String> = match self.list_state.selected {
            Some(idx) => {
                if idx < self.flat_items.len() {
                    match &self.flat_items[idx] {
                        Selection::Session(id) => Some(id.clone()),
                        Selection::Group(_) => None,
                    }
                } else {
                    None
                }
            },
            None => None,
        };
        if !opt_str_eq(&current_id, &self.last_selected_id) {
            self.current_preview = None;
            self.last_selected_id = current_id;
        }
    }

    /// Moves the selection down to the next session row, wrapping around.
    pub fn next(&mut self)
        ensures
            after_next(*old(self), *final(self)),
    {
        let n = self.flat_items.len();
        if n == 0 {
            return;
        }
        let ghost rows = self.rows();
        let current: usize = match self.list_state.selected {
            Some(c) => c,
            None => 0,
        };
        let mut i = succ_mod(current, n);
        let ghost start = i as int;
        let mut checks: usize = n - 1;
        let mut found: Option<usize> = None;
        loop
            invariant_except_break
                found is None,
            invariant
                n == self.flat_items@.len(),
                rows == self.rows(),
                i < n,
                checks < n,
                scan_fwd(rows, start, (n - 1) as nat) == scan_fwd(rows, i as int, checks as nat),
            ensures
                scan_fwd(rows, start, (n - 1) as nat) == match found { Some(k) => Some(k as int), None => None::<int> },
            decreases checks,
        {
            assert(self.flat_items@[i as int]@ == rows[i as int]);
            if is_session_row(&self.flat_items, i) {
                found = Some(i);
                break;
            }
            if checks == 0 {
                break;
            }
            i = if i + 1 >= n { 0 } else { i + 1 };
            checks -= 1;
        }
        match found {
            Some(k) => self.list_state.select(Some(k)),
            None => {},
        }
        self.update_selection_id();
    }

    /// Moves the selection up to the previous session row, wrapping around.
    pub fn previous(&mut self)
        ensures
            after_previous(*old(self), *final(self)),
    {
        let n = self.flat_items.len();
        if n == 0 {
            return;
        }
        let ghost rows = self.rows();
        let current: usize = match self.list_state.selected {
            Some(c) => c,
            None => 0,
        };
        let mut i = if current == 0 || current > n { n - 1 } else { current - 1 };
        let ghost start = i as int;
        let mut checks: usize = n - 1;
        let mut found: Option<usize> = None;
        loop
            invariant_except_break
                found is None,
            invariant
                n == self.flat_items@.len(),
                rows == self.rows(),
                i < n,
                checks < n,
                scan_back(rows, start, (n - 1) as nat) == scan_back(rows, i as int, checks as nat),
            ensures
                scan_back(rows, start, (n - 1) as nat) == match found { Some(k) => Some(k as int), None => None::<int> },
            decreases checks,
        {
            assert(self.flat_items@[i as int]@ == rows[i as int]);
            if is_session_row(&self.flat_items, i) {
                found = Some(i);
                break;
            }
            if checks == 0 {
                break;
            }
            i = if i == 0 { n - 1 } else { i - 1 };
            checks -= 1;
        }
        match found {
            Some(k) => self.list_state.select(Some(k)),
            None => {},
        }
        self.update_selection_id();
    }
}

/// Moving the selection down with [`App::next`] and then up with
/// [`App::previous`], from a selected session row, leaves the selection on that
/// row, and the remembered id is that session's.
pub proof fn lemma_next_then_previous_restores(a: App, b: App, c: App, s: usize)
    requires
        after_next(a, b),
        after_previous(b, c),
        a.list_state.selected == Some(s),
        (s as int) < a.rows().len(),
        a.rows()[s as int] is Session,
        a.rows().len() <= usize::MAX,
    ensures
        c.list_state.selected == Some(s),
        a.rows()[s as int] matches SelectionView::Session(id) && opt_string_view(c.last_selected_id) == Some(id),
{
    crate::tui::navigation::lemma_next_then_previous(a.rows(), s);
    assert(b.rows() =~= a.rows());
}

/// Well-formedness depends on the registry, the groups and the rows alone.
pub proof fn lemma_wf_same_parts(a: App, b: App)
    requires
        a.wf(),
        b.registry == a.registry,
        b.sessions_by_group == a.sessions_by_group,
        b.flat_items == a.flat_items,
    ensures
        b.wf(),
{
    assert(b.rows() =~= a.rows());
    assert(b.group_model() =~= a.group_model());
}

/// `b` is `a` after moving the selection down.
pub open spec fn after_next(a: App, b: App) -> bool {
    &&& (a.rows().len() == 0 ==> b == a)
    &&& (a.rows().len() > 0 ==> b.list_state.selected == spec_next(a.rows(), a.list_state.selected))
    &&& (a.rows().len() > 0 ==> (opt_string_view(b.last_selected_id), opt_string_view(b.current_preview))
        == spec_after_selection(
        a.rows(),
        b.list_state.selected,
        opt_string_view(a.last_selected_id),
        opt_string_view(a.current_preview),
    ))
    &&& b.registry == a.registry
    &&& b.executor == a.executor
    &&& b.home == a.home
    &&& b.groups == a.groups
    &&& b.sessions_by_group == a.sessions_by_group
    &&& b.flat_items == a.flat_items
    &&& b.input_mode == a.input_mode
    &&& b.grouping_mode == a.grouping_mode
    &&& b.should_quit == a.should_quit
    &&& b.message == a.message
    &&& b.collapsed == a.collapsed
}

/// `b` is `a` after moving the selection up.
pub open spec fn after_previous(a: App, b: App) -> bool {
    &&& (a.rows().len() == 0 ==> b == a)
    &&& (a.rows().len() > 0 ==> b.list_state.selected == spec_previous(a.rows(), a.list_state.selected))
    &&& (a.rows().len() > 0 ==> (opt_string_view(b.last_selected_id), opt_string_view(b.current_preview))
        == spec_after_selection(
        a.rows(),
        b.list_state.selected,
        opt_string_view(a.last_selected_id),
        opt_string_view(a.current_preview),
    ))
    &&& b.registry == a.registry
    &&& b.executor == a.executor
    &&& b.home == a.home
    &&& b.groups == a.groups
    &&& b.sessions_by_group == a.sessions_by_group
    &&& b.flat_items == a.flat_items
    &&& b.input_mode == a.input_mode
    &&& b.grouping_mode == a.grouping_mode
    &&& b.should_quit == a.should_quit
    &&& b.message == a.message
    &&& b.collapsed == a.collapsed
}

/// `b` is `a` after switching the grouping and regrouping every session.
pub open spec fn after_toggle(a: App, b: App) -> bool {
    &&& b.wf()
    &&& b.grouping_mode == match a.grouping_mode {
        GroupingMode::Host => GroupingMode::Month,
        GroupingMode::Month => GroupingMode::Host,
    }
    &&& b.registry.sessions@ == a.registry.sessions@
    &&& b.group_model() == spec_add_all(
        Seq::empty(),
        0,
        a.registry.sessions@,
        b.grouping_mode,
        opt_string_view(a.home),
    )
    &&& b.group_keys() == sort_keys(keys_of(b.group_model()), b.grouping_mode)
    &&& b.rows() == spec_rows(b.group_keys(), b.group_model(), b.registry.sessions@, b.folded())
    &&& b.list_state.selected == spec_selection_after_rebuild(b.rows(), a.list_state.selected)
    &&& (opt_string_view(b.last_selected_id), opt_string_view(b.current_preview))
        == spec_memory_after_rebuild(
        b.rows(),
        a.list_state.selected,
        opt_string_view(a.last_selected_id),
        opt_string_view(a.current_preview),
    )
    &&& b.registry.cache == a.registry.cache
    &&& b.executor == a.executor
    &&& b.home == a.home
    &&& b.input_mode == a.input_mode
    &&& b.should_quit == a.should_quit
    &&& b.message == a.message
    &&& b.collapsed == a.collapsed
}

/// Whether the groups, headings and rows of `a` are those its sessions give
/// when grouped at once, as loading into a fresh interface leaves them.
pub open spec fn tree_as_loaded(a: App) -> bool {
    &&& a.group_model() == spec_add_all(Seq::empty(), 0, a.registry.sessions@, a.grouping_mode, opt_string_view(a.home))
    &&& a.group_keys() == sort_keys(keys_of(a.group_model()), a.grouping_mode)
    &&& a.rows() == spec_rows(a.group_keys(), a.group_model(), a.registry.sessions@, a.folded())
}

/// Switching the grouping twice gives back the tree: the grouping, the groups,
/// the headings, the rows and a selection that was made all come back as they
/// were.
pub proof fn lemma_toggle_twice(a: App, b: App, c: App)
    requires
        tree_as_loaded(a),
        after_toggle(a, b),
        after_toggle(b, c),
    ensures
        c.grouping_mode == a.grouping_mode,
        c.registry.sessions@ == a.registry.sessions@,
        c.group_model() == a.group_model(),
        c.group_keys() == a.group_keys(),
        c.rows() == a.rows(),
        a.list_state.selected is Some ==> c.list_state.selected == a.list_state.selected,
{
}

/// Toggling leaves the tree as loading gives it.
pub proof fn lemma_toggle_keeps_loaded(a: App, b: App)
    requires
        after_toggle(a, b),
    ensures
        tree_as_loaded(b),
{
}

/// `b` is `a` after every session and group was forgotten.
pub open spec fn after_reload(a: App, b: App) -> bool {
    &&& b.wf()
    &&& b.registry.sessions@.len() == 0
    &&& b.group_model().len() == 0
    &&& b.groups@.len() == 0
    &&& b.flat_items@.len() == 0
    &&& b.list_state == a.list_state
    &&& opt_string_view(b.last_selected_id) == opt_string_view(a.last_selected_id)
    &&& opt_string_view(b.current_preview) == opt_string_view(a.current_preview)
    &&& b.registry.cache == a.registry.cache
    &&& b.executor == a.executor
    &&& b.home == a.home
    &&& b.input_mode == a.input_mode
    &&& b.grouping_mode == a.grouping_mode
    &&& b.should_quit == a.should_quit
    &&& b.message == a.message
    &&& b.collapsed == a.collapsed
}


/// `b` is `a` after sessions `new` were added, each to its group, and the tree
/// was rebuilt.
pub open spec fn after_add(a: App, b: App, new: Seq<Arc<Session>>) -> bool {
    &&& b.registry.sessions@ == a.registry.sessions@ + new
    &&& b.group_model() == spec_add_all(
        a.group_model(),
        a.registry.sessions@.len(),
        new,
        a.grouping_mode,
        opt_string_view(a.home),
    )
    &&& b.group_keys() == sort_keys(keys_of(b.group_model()), a.grouping_mode)
    &&& b.rows() == spec_rows(b.group_keys(), b.group_model(), b.registry.sessions@, b.folded())
    &&& b.collapsed == a.collapsed
    &&& b.list_state.selected == spec_selection_after_rebuild(b.rows(), a.list_state.selected)
    &&& (opt_string_view(b.last_selected_id), opt_string_view(b.current_preview))
        == spec_memory_after_rebuild(
        b.rows(),
        a.list_state.selected,
        opt_string_view(a.last_selected_id),
        opt_string_view(a.current_preview),
    )
    &&& b.registry.cache == a.registry.cache
    &&& b.executor == a.executor
    &&& b.home == a.home
    &&& b.input_mode == a.input_mode
    &&& b.grouping_mode == a.grouping_mode
    &&& b.should_quit == a.should_quit
    &&& b.message == a.message
}

/// Reloading and then adding the sessions of a fresh scan rebuilds the tree from
/// those sessions alone, as loading them into a fresh interface would.
pub proof fn lemma_reload_then_add(a: App, b: App, c: App, new: Seq<Arc<Session>>)
    requires
        after_reload(a, b),
        after_add(b, c, new),
    ensures
        c.registry.sessions@ == new,
        tree_as_loaded(c),
        c.grouping_mode == a.grouping_mode,
        c.collapsed == a.collapsed,
{
    assert(b.group_model() =~= Seq::<(Seq<char>, Seq<usize>)>::empty());
    assert(b.registry.sessions@ + new =~= new);
}

/// The groups after adding sessions `new`, which take positions `base`,
/// `base + 1`, ... among all sessions.
pub open spec fn spec_add_all(
    gm: Seq<(Seq<char>, Seq<usize>)>,
    base: nat,
    new: Seq<Arc<Session>>,
    mode: GroupingMode,
    home: Option<Seq<char>>,
) -> Seq<(Seq<char>, Seq<usize>)>
    decreases new.len(),
{
    if new.len() == 0 {
        gm
    } else {
        add_to_group(
            spec_add_all(gm, base, new.drop_last(), mode, home),
            spec_group_key(*new.last(), mode, home),
            (base + new.len() - 1) as usize,
        )
    }
}

/// Loading in batches groups as loading at once: adding `a` and then `b` gives
/// the groups that adding `a` followed by `b` in one go gives.
pub proof fn lemma_add_all_batches(
    gm: Seq<(Seq<char>, Seq<usize>)>,
    base: nat,
    a: Seq<Arc<Session>>,
    b: Seq<Arc<Session>>,
    mode: GroupingMode,
    home: Option<Seq<char>>,
)
    ensures
        spec_add_all(spec_add_all(gm, base, a, mode, home), base + a.len(), b, mode, home)
            == spec_add_all(gm, base, a + b, mode, home),
    decreases b.len(),
{
    if b.len() == 0 {
        assert(a + b =~= a);
    } else {
        lemma_add_all_batches(gm, base, a, b.drop_last(), mode, home);
        assert((a + b).drop_last() =~= a + b.drop_last());
        assert((a + b).last() == b.last());
    }
}

/// The groups `gm` agree with the sessions `ss`: no key occurs twice, each
/// group holds positions of sessions whose group key is the group's, and each
/// session is in the group of its key.
pub open spec fn groups_agree(
    gm: Seq<(Seq<char>, Seq<usize>)>,
    ss: Seq<Arc<Session>>,
    mode: GroupingMode,
    home: Option<Seq<char>>,
) -> bool {
    &&& keys_distinct(gm)
    &&& forall|g: int, j: int| 0 <= g < gm.len() && 0 <= j < gm[g].1.len()
        ==> (#[trigger] gm[g].1[j] as int) < ss.len() && spec_group_key(*ss[gm[g].1[j] as int], mode, home) == gm[g].0
    &&& forall|i: int| 0 <= i < ss.len() ==> grouped_in(gm, spec_group_key(*(#[trigger] ss[i]), mode, home), i as usize)
}

/// Whether position `i` is in the group with key `key`.
pub open spec fn grouped_in(gm: Seq<(Seq<char>, Seq<usize>)>, key: Seq<char>, i: usize) -> bool {
    exists|g: int| 0 <= g < gm.len() && gm[g].0 == key && gm[g].1.contains(i)
}

/// The group key of a shared session.
pub open spec fn session_key(x: Arc<Session>, mode: GroupingMode, home: Option<Seq<char>>) -> Seq<char> {
    spec_group_key(*x, mode, home)
}

/// Adding one session to the group of its key keeps the groups in agreement
/// with the sessions.
pub proof fn lemma_add_to_group_agrees(
    gm: Seq<(Seq<char>, Seq<usize>)>,
    ss: Seq<Arc<Session>>,
    x: Arc<Session>,
    mode: GroupingMode,
    home: Option<Seq<char>>,
)
    requires
        groups_agree(gm, ss, mode, home),
        ss.len() < usize::MAX,
    ensures
        groups_agree(add_to_group(gm, spec_group_key(*x, mode, home), ss.len() as usize), ss.push(x), mode, home),
{
    let key = session_key(x, mode, home);
    let idx = ss.len() as usize;
    let r = add_to_group(gm, key, idx);
    let s2 = ss.push(x);
    lemma_key_index(gm, key);
    let i = key_index(gm, key);
    assert forall|a: int, b: int| 0 <= a < b < r.len() implies r[a].0 != r[b].0 by {
        if b == gm.len() {
            assert(r[b].0 == key);
        }
    }
    assert forall|g: int, j: int| 0 <= g < r.len() && 0 <= j < r[g].1.len()
        implies (#[trigger] r[g].1[j] as int) < s2.len() && spec_group_key(*s2[r[g].1[j] as int], mode, home) == r[g].0 by {
        if (i >= 0 && g == i && j == gm[g].1.len()) || (i < 0 && g == gm.len()) {
            assert(r[g].1[j] == idx);
        } else {
            assert(r[g].1[j] == gm[g].1[j]);
            assert(s2[gm[g].1[j] as int] == ss[gm[g].1[j] as int]);
        }
    }
    assert forall|t: int| 0 <= t < s2.len() implies grouped_in(r, spec_group_key(*(#[trigger] s2[t]), mode, home), t as usize) by {
        if t == ss.len() {
            if i >= 0 {
                assert(r[i].1[gm[i].1.len() as int] == idx);
            } else {
                assert(r[gm.len() as int].1[0] == idx);
            }
        } else {
            assert(s2[t] == ss[t]);
            assert(grouped_in(gm, spec_group_key(*ss[t], mode, home), t as usize));
            let g = choose|g: int| 0 <= g < gm.len() && gm[g].0 == spec_group_key(*ss[t], mode, home) && gm[g].1.contains(t as usize);
            let w = choose|w: int| 0 <= w < gm[g].1.len() && gm[g].1[w] == t as usize;
            assert(r[g].1[w] == t as usize);
        }
    }
}

/// Grouping keeps the groups in agreement with the sessions: adding sessions
/// `new` after sessions `ss` the groups agree with gives groups that agree with
/// all of them; every session ends up in exactly the group of its key.
pub proof fn lemma_add_all_agrees(
    gm: Seq<(Seq<char>, Seq<usize>)>,
    ss: Seq<Arc<Session>>,
    new: Seq<Arc<Session>>,
    mode: GroupingMode,
    home: Option<Seq<char>>,
)
    requires
        groups_agree(gm, ss, mode, home),
        ss.len() + new.len() <= usize::MAX,
    ensures
        groups_agree(spec_add_all(gm, ss.len(), new, mode, home), ss + new, mode, home),
    decreases new.len(),
{
    if new.len() == 0 {
        assert(ss + new =~= ss);
    } else {
        let front = new.drop_last();
        lemma_add_all_agrees(gm, ss, front, mode, home);
        lemma_add_to_group_agrees(spec_add_all(gm, ss.len(), front, mode, home), ss + front, new.last(), mode, home);
        assert((ss + front).push(new.last()) =~= ss + new);
    }
}

/// The selection after the tree was rebuilt into `rows`: where nothing was
/// selected, the first row is selected and, being a heading, the selection moves
/// on to the next session.
pub open spec fn spec_selection_after_rebuild(rows: Seq<SelectionView>, selected: Option<usize>) -> Option<usize> {
    if selected is None && rows.len() > 0 {
        if rows[0] is Group { spec_next(rows, Some(0)) } else { Some(0) }
    } else {
        selected
    }
}

/// The remembered id and preview after the tree was rebuilt.
pub open spec fn spec_memory_after_rebuild(
    rows: Seq<SelectionView>,
    selected: Option<usize>,
    last_id: Option<Seq<char>>,
    preview: Option<Seq<char>>,
) -> (Option<Seq<char>>, Option<Seq<char>>) {
    if selected is None && rows.len() > 0 && rows[0] is Group {
        spec_after_selection(rows, spec_next(rows, Some(0)), last_id, preview)
    } else {
        (last_id, preview)
    }
}

/// The group key of a session.
pub fn group_key_of(s: &Session, mode: GroupingMode, home: &Option<String>) -> (r: String)
    requires
        mode == GroupingMode::Month ==> time_ok(s.updated_at),
    ensures
        r@ == spec_group_key(*s, mode, opt_string_view(*home)),
{
    match mode {
        GroupingMode::Host => {
            let h: Option<&str> = match home {
                Some(h) => Some(h.as_str()),
                None => None,
            };
            crate::utils::term::project_display(s, h)
        },
        GroupingMode::Month => {
            match format_time(s.updated_at, "%Y-%m") {
                Some(m) => m,
                None => String::new(),
            }
        },
    }
}

impl App {
    /// The position in `registry.sessions` of the session on the selected row,
    /// found through the id index.
    pub open spec fn selected_position(&self) -> Option<int> {
        match spec_selected_id(self.rows(), self.list_state.selected) {
            Some(id) => match lookup(self.registry.index_model(), id) {
                Some(i) => if (i as int) < self.registry.sessions@.len() { Some(i as int) } else { None },
                None => None,
            },
            None => None,
        }
    }

    /// The session on the selected row, through the registry's id index.
    pub fn get_selected_session(&self) -> (r: Option<&Arc<Session>>)
        ensures
            match self.selected_position() {
                Some(i) => r == Some(&self.registry.sessions@[i]),
                None => r is None,
            },
    {
        match self.list_state.selected {
            Some(idx) => {
                if idx < self.flat_items.len() {
                    match &self.flat_items[idx] {
                        Selection::Session(id) => self.registry.find_by_id(id.as_str()),
                        Selection::Group(_) => None,
                    }
                } else {
                    None
                }
            },
            None => None,
        }
    }

    /// Rebuilds the group headings and the rows from the groups, and selects the
    /// first session where nothing is selected.
    pub fn rebuild_tree(&mut self)
        requires
            forall|g: int| 0 <= g < old(self).group_model().len() ==> (#[trigger] old(self).group_model()[g]).1.len() > 0,
            forall|g: int, j: int| 0 <= g < old(self).group_model().len() && 0 <= j < old(self).group_model()[g].1.len()
                ==> (#[trigger] old(self).group_model()[g].1[j] as int) < old(self).registry.sessions@.len(),
        ensures
            final(self).group_keys() == sort_keys(keys_of(old(self).group_model()), old(self).grouping_mode),
            final(self).rows() == spec_rows(final(self).group_keys(), old(self).group_model(), old(self).registry.sessions@, old(self).folded()),
            final(self).collapsed == old(self).collapsed,
            final(self).list_state.selected == spec_selection_after_rebuild(final(self).rows(), old(self).list_state.selected),
            (opt_string_view(final(self).last_selected_id), opt_string_view(final(self).current_preview))
                == spec_memory_after_rebuild(
                final(self).rows(),
                old(self).list_state.selected,
                opt_string_view(old(self).last_selected_id),
                opt_string_view(old(self).current_preview),
            ),
            final(self).registry == old(self).registry,
            final(self).executor == old(self).executor,
            final(self).home == old(self).home,
            final(self).sessions_by_group == old(self).sessions_by_group,
            final(self).input_mode == old(self).input_mode,
            final(self).grouping_mode == old(self).grouping_mode,
            final(self).should_quit == old(self).should_quit,
            final(self).message == old(self).message,
    {
        let ghost gm = self.group_model();
        let mut keys: Vec<String> = Vec::new();
        let mut i: usize = 0;
        while i < self.sessions_by_group.len()
            invariant
                i <= self.sessions_by_group@.len(),
                gm == self.group_model(),
                texts(keys@) == keys_of(gm).take(i as int),
            decreases self.sessions_by_group.len() - i,
        {
            let k = self.sessions_by_group[i].0.clone();
            let ghost prev = keys@;
            keys.push(k);
            assert(keys@ == prev.push(k));
            assert(texts(keys@) =~= texts(prev).push(k@));
            assert(keys_of(gm).take(i + 1) =~= keys_of(gm).take(i as int).push(gm[i as int].0));
            i += 1;
        }
        assert(keys_of(gm).take(i as int) =~= keys_of(gm));
        proof {
            assert forall|g: int, j: int| 0 <= g < self.sessions_by_group@.len() && 0 <= j < self.sessions_by_group@[g].1@.len()
                implies (#[trigger] self.sessions_by_group@[g].1@[j] as int) < self.registry.sessions@.len() by {
                assert(gm[g] == (self.sessions_by_group@[g].0@, self.sessions_by_group@[g].1@));
                assert(gm[g].1[j] == self.sessions_by_group@[g].1@[j]);
            }
        }
        self.groups = sort_group_keys(&keys, self.grouping_mode);
        self.flat_items = build_rows(&self.groups, &self.sessions_by_group, &self.registry.sessions, &self.collapsed);
        if self.list_state.selected.is_none() && self.flat_items.len() > 0 {
            self.list_state.select(Some(0));
            if !is_session_row(&self.flat_items, 0) {
                self.next();
            }
        }
    }

    /// Adds sessions, each to its group, and rebuilds the tree.
    pub fn add_sessions(&mut self, sessions: Vec<Arc<Session>>) -> (r: Result<(), crate::error::CastorError>)
        requires
            old(self).wf(),
            forall|i: int| 0 <= i < sessions@.len() ==> time_ok(#[trigger] sessions@[i].updated_at),
        ensures
            r is Ok,
            final(self).wf(),
            after_add(*old(self), *final(self), sessions@),
    {
        let ghost base = self.registry.sessions@.len();
        let ghost gm0 = self.group_model();
        let ghost ss0 = self.registry.sessions@;
        let ghost src = sessions@;
        let ghost home_v = opt_string_view(self.home);
        let mode = self.grouping_mode;
        for s in it: sessions.into_iter()
            invariant
                it.seq() == src,
                mode == self.grouping_mode,
                home_v == opt_string_view(self.home),
                ss0.len() == base,
                forall|i: int| 0 <= i < src.len() ==> time_ok(#[trigger] src[i].updated_at),
                forall|i: int| 0 <= i < ss0.len() ==> time_ok(#[trigger] ss0[i].updated_at),
                self.registry.sessions@ == ss0 + src.take(it.index()),
                self.group_model() == spec_add_all(gm0, base, src.take(it.index()), mode, home_v),
                forall|g: int| 0 <= g < self.group_model().len() ==> (#[trigger] self.group_model()[g]).1.len() > 0,
                forall|g: int, j: int| 0 <= g < self.group_model().len() && 0 <= j < self.group_model()[g].1.len()
                    ==> (#[trigger] self.group_model()[g].1[j] as int) < self.registry.sessions@.len(),
                self.registry.cache == old(self).registry.cache,
                self.executor == old(self).executor,
                self.home == old(self).home,
                self.input_mode == old(self).input_mode,
                self.should_quit == old(self).should_quit,
                self.message == old(self).message,
                self.list_state == old(self).list_state,
                self.collapsed == old(self).collapsed,
                self.last_selected_id == old(self).last_selected_id,
                self.current_preview == old(self).current_preview,
        {
            let ghost k = it.index();
            assert(src.take(k + 1).drop_last() =~= src.take(k));
            assert(src.take(k + 1).last() == s);
            let key = group_key_of(&*s, mode, &self.home);
            let idx = self.registry.sessions.len();
            self.registry.sessions.push(s);
            let ghost gm_before = self.group_model();
            let ghost gx = self.sessions_by_group@.map_values(|g: (String, Vec<usize>)| (g.0@, g.1));
            proof {
                lemma_key_index_same_keys(gx, gm_before, key@);
                lemma_key_index(gm_before, key@);
            }
            match crate::model::cache::find_key(&self.sessions_by_group, key.as_str()) {
                Some(g) => {
                    let (gkey, mut list) = self.sessions_by_group.remove(g);
                    let ghost old_list = list@;
                    list.push(idx);
                    self.sessions_by_group.insert(g, (gkey, list));
                    assert(self.group_model() =~= add_to_group(gm_before, key@, idx));
                },
                None => {
                    let mut list: Vec<usize> = Vec::new();
                    list.push(idx);
                    let ghost kv = key@;
                    self.sessions_by_group.push((key, list));
                    assert(self.group_model() =~= add_to_group(gm_before, kv, idx));
                },
            }
            assert(self.registry.sessions@ =~= ss0 + src.take(k + 1));
        }
        assert(src.take(src.len() as int) =~= src);
        self.registry.rebuild_index();
        self.rebuild_tree();
        proof {
            assert forall|i: int| 0 <= i < self.registry.sessions@.len()
                implies time_ok(#[trigger] self.registry.sessions@[i].updated_at) by {
                if i < ss0.len() {
                    assert(self.registry.sessions@[i] == ss0[i]);
                } else {
                    assert(self.registry.sessions@[i] == src[i - ss0.len()]);
                }
            }
        }
        Ok(())
    }

    /// Switches between grouping by host and by month, and regroups every session
    /// already loaded.
    pub fn toggle_grouping(&mut self) -> (r: Result<(), crate::error::CastorError>)
        requires
            old(self).wf(),
        ensures
            r is Ok,
            after_toggle(*old(self), *final(self)),
    {
        self.grouping_mode = match self.grouping_mode {
            GroupingMode::Host => GroupingMode::Month,
            GroupingMode::Month => GroupingMode::Host,
        };
        let mut sessions: Vec<Arc<Session>> = Vec::new();
        std::mem::swap(&mut sessions, &mut self.registry.sessions);
        self.sessions_by_group = Vec::new();
        self.registry.rebuild_index();
        proof {
            assert(self.group_model() =~= Seq::<(Seq<char>, Seq<usize>)>::empty());
        }
        self.add_sessions(sessions)
    }

    /// Forgets every loaded session and group, ready for a fresh scan.
    pub fn reload(&mut self) -> (r: Result<(), crate::error::CastorError>)
        requires
            old(self).wf(),
        ensures
            r is Ok,
            after_reload(*old(self), *final(self)),
    {
        self.registry.sessions.clear();
        self.sessions_by_group.clear();
        self.registry.rebuild_index();
        proof {
            assert(self.group_model() =~= Seq::<(Seq<char>, Seq<usize>)>::empty());
        }
        self.rebuild_tree();
        proof {
            assert(keys_of(self.group_model()) =~= Seq::<Seq<char>>::empty());
            assert(self.group_keys() =~= Seq::<Seq<char>>::empty());
            assert(self.rows() =~= Seq::<SelectionView>::empty());
        }
        Ok(())
    }
}


/// What a fold key does to the group of the selected row.
#[derive(Clone, Copy, Debug, PartialEq, Eq, Structural)]
pub enum FoldOp {
    /// Hide the group's sessions.
    Fold,
    /// Show the group's sessions.
    Unfold,
    /// Hide them where shown, show them where hidden.
    Toggle,
}

/// The group of row `i`: the heading itself, or the nearest heading above a
/// session row.
pub open spec fn group_of_row(rows: Seq<SelectionView>, i: nat) -> Option<Seq<char>>
    decreases i,
{
    if i >= rows.len() {
        None
    } else {
        match rows[i as int] {
            SelectionView::Group(g) => Some(g),
            SelectionView::Session(_) => if i == 0 { None } else { group_of_row(rows, (i - 1) as nat) },
        }
    }
}

/// The group of the selected row.
pub open spec fn selected_group(rows: Seq<SelectionView>, selected: Option<usize>) -> Option<Seq<char>> {
    match selected {
        Some(c) => group_of_row(rows, c as nat),
        None => None,
    }
}

/// `s` without any occurrence of `g`.
pub open spec fn without(s: Seq<Seq<char>>, g: Seq<char>) -> Seq<Seq<char>>
    decreases s.len(),
{
    if s.len() == 0 {
        s
    } else {
        let r = without(s.drop_last(), g);
        if s.last() == g { r } else { r.push(s.last()) }
    }
}

/// The folded groups after `op` on group `g`: folding adds `g` where it is not
/// folded yet, unfolding removes it.
pub open spec fn spec_fold(folded: Seq<Seq<char>>, g: Seq<char>, op: FoldOp) -> Seq<Seq<char>> {
    let fold = match op {
        FoldOp::Fold => true,
        FoldOp::Unfold => false,
        FoldOp::Toggle => !folded.contains(g),
    };
    if fold {
        if folded.contains(g) { folded } else { folded.push(g) }
    } else {
        without(folded, g)
    }
}

/// Whether some row is the heading of `g`.
pub open spec fn has_heading(rows: Seq<SelectionView>, g: Seq<char>) -> bool {
    exists|k: int| 0 <= k < rows.len() && rows[k] == SelectionView::Group(g)
}

/// Whether row `k` is the first heading of `g`.
pub open spec fn first_heading(rows: Seq<SelectionView>, g: Seq<char>, k: int) -> bool {
    &&& 0 <= k < rows.len()
    &&& rows[k] == SelectionView::Group(g)
    &&& forall|j: int| 0 <= j < k ==> rows[j] != SelectionView::Group(g)
}

/// `b` is `a` after `op` on the group of the selected row: the folded groups
/// change, the rows are rebuilt and the group's heading is selected; nothing
/// changes where no group is selected.
pub open spec fn after_fold(a: App, b: App, op: FoldOp) -> bool {
    match selected_group(a.rows(), a.list_state.selected) {
        None => b == a,
        Some(g) => {
            &&& b.folded() == spec_fold(a.folded(), g, op)
            &&& b.rows() == spec_rows(a.group_keys(), a.group_model(), a.registry.sessions@, b.folded())
            &&& (has_heading(b.rows(), g) ==> (b.list_state.selected matches Some(k) && first_heading(b.rows(), g, k as int)))
            &&& (!has_heading(b.rows(), g) ==> b.list_state.selected == a.list_state.selected)
            &&& (opt_string_view(b.last_selected_id), opt_string_view(b.current_preview))
                == spec_after_selection(
                b.rows(),
                b.list_state.selected,
                opt_string_view(a.last_selected_id),
                opt_string_view(a.current_preview),
            )
            &&& b.registry == a.registry
            &&& b.executor == a.executor
            &&& b.home == a.home
            &&& b.groups == a.groups
            &&& b.sessions_by_group == a.sessions_by_group
            &&& b.input_mode == a.input_mode
            &&& b.grouping_mode == a.grouping_mode
            &&& b.should_quit == a.should_quit
            &&& b.message == a.message
        },
    }
}

/// `v` without any occurrence of `g`.
fn remove_text(v: &Vec<String>, g: &str) -> (r: Vec<String>)
    ensures
        texts(r@) == without(texts(v@), g@),
{
    let mut r: Vec<String> = Vec::new();
    let mut i: usize = 0;
    while i < v.len()
        invariant
            i <= v@.len(),
            texts(r@) == without(texts(v@).take(i as int), g@),
        decreases v.len() - i,
    {
        assert(texts(v@).take(i + 1).drop_last() =~= texts(v@).take(i as int));
        assert(texts(v@).take(i + 1).last() == v@[i as int]@);
        if !str_eq(v[i].as_str(), g) {
            let ghost before = r@;
            r.push(v[i].clone());
            assert(texts(r@) =~= texts(before).push(v@[i as int]@));
        }
        i += 1;
    }
    assert(texts(v@).take(i as int) =~= texts(v@));
    r
}

/// The first row that is the heading of `g`.
fn find_heading(items: &Vec<Selection>, g: &str) -> (r: Option<usize>)
    ensures
        match r {
            Some(k) => first_heading(items@.map_values(|x: Selection| x@), g@, k as int),
            None => !has_heading(items@.map_values(|x: Selection| x@), g@),
        },
{
    let ghost rows = items@.map_values(|x: Selection| x@);
    let mut i: usize = 0;
    while i < items.len()
        invariant
            i <= items@.len(),
            rows == items@.map_values(|x: Selection| x@),
            forall|j: int| 0 <= j < i ==> rows[j] != SelectionView::Group(g@),
        decreases items.len() - i,
    {
        assert(rows[i as int] == items@[i as int]@);
        match &items[i] {
            Selection::Group(h) => {
                if str_eq(h.as_str(), g) {
                    return Some(i);
                }
            },
            Selection::Session(_) => {},
        }
        i += 1;
    }
    None
}

impl App {
    /// Whether group `id` is folded.
    pub fn is_group_collapsed(&self, id: &str) -> (r: bool)
        ensures
            r == self.folded().contains(id@),
    {
        is_folded(&self.collapsed, id)
    }

    /// The key of the group of the selected row.
    fn selected_group_key(&self) -> (r: Option<String>)
        ensures
            opt_string_view(r) == selected_group(self.rows(), self.list_state.selected),
    {
        let c = match self.list_state.selected {
            Some(c) => c,
            None => return None,
        };
        if c >= self.flat_items.len() {
            return None;
        }
        let ghost rows = self.rows();
        let mut i = c;
        loop
            invariant
                i < self.flat_items@.len(),
                rows == self.rows(),
                self.list_state.selected == Some(c),
                group_of_row(rows, c as nat) == group_of_row(rows, i as nat),
            decreases i,
        {
            assert(rows[i as int] == self.flat_items@[i as int]@);
            match &self.flat_items[i] {
                Selection::Group(g) => return Some(g.clone()),
                Selection::Session(_) => {
                    if i == 0 {
                        return None;
                    }
                    i -= 1;
                },
            }
        }
    }

    /// Folds, unfolds or toggles the group of the selected row (a heading, or
    /// the session under it) and selects that group's heading.
    pub fn set_fold(&mut self, op: FoldOp)
        requires
            old(self).wf(),
        ensures
            final(self).wf(),
            after_fold(*old(self), *final(self), op),
    {
        let g = match self.selected_group_key() {
            Some(g) => g,
            None => return,
        };
        let ghost a = *self;
        let folded_now = is_folded(&self.collapsed, g.as_str());
        let fold = match op {
            FoldOp::Fold => true,
            FoldOp::Unfold => false,
            FoldOp::Toggle => !folded_now,
        };
        if fold {
            if !folded_now {
                let ghost before = self.collapsed@;
                self.collapsed.push(g.clone());
                assert(texts(self.collapsed@) =~= texts(before).push(g@));
            }
        } else {
            self.collapsed = remove_text(&self.collapsed, g.as_str());
        }
        proof {
            assert forall|x: int, j: int| 0 <= x < self.sessions_by_group@.len() && 0 <= j < self.sessions_by_group@[x].1@.len()
                implies (#[trigger] self.sessions_by_group@[x].1@[j] as int) < self.registry.sessions@.len() by {
                assert(a.group_model()[x] == (self.sessions_by_group@[x].0@, self.sessions_by_group@[x].1@));
                assert(a.group_model()[x].1[j] == self.sessions_by_group@[x].1@[j]);
            }
        }
        self.flat_items = build_rows(&self.groups, &self.sessions_by_group, &self.registry.sessions, &self.collapsed);
        assert(texts(self.groups@) =~= a.group_keys());
        match find_heading(&self.flat_items, g.as_str()) {
            Some(k) => self.list_state.select(Some(k)),
            None => {},
        }
        self.update_selection_id();
        proof {
            assert(self.group_model() =~= a.group_model());
        }
    }

    /// Whether the selected row is a group heading.
    pub fn selected_is_heading(&self) -> (r: bool)
        ensures
            r == match self.list_state.selected {
                Some(c) => (c as int) < self.rows().len() && self.rows()[c as int] is Group,
                None => false,
            },
    {
        match self.list_state.selected {
            Some(c) => {
                if c < self.flat_items.len() {
                    assert(self.rows()[c as int] == self.flat_items@[c as int]@);
                    match &self.flat_items[c] {
                        Selection::Group(_) => true,
                        Selection::Session(_) => false,
                    }
                } else {
                    false
                }
            },
            None => false,
        }
    }

    /// Toggles the fold of the group of the selected row.
    pub fn toggle_selected_group(&mut self)
        requires
            old(self).wf(),
        ensures
            final(self).wf(),
            after_fold(*old(self), *final(self), FoldOp::Toggle),
    {
        self.set_fold(FoldOp::Toggle);
    }
}

} // verus!
