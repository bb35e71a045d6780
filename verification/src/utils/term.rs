use vstd::prelude::*;
use std::sync::Arc;
use crate::model::session::{Session, SessionHealth, spec_display_id, lemma_display_id_is_last_part};
use crate::utils::fs::{format_host, spec_format_host};
use crate::utils::icons::{Icons};
use crate::utils::text::{chars_of, push_char, opt_string_view, opt_str_view};
use crate::model::session::spec_health_label;
use crate::utils::time::{format_time, time_label, time_ok};
use crate::model::cache::{lookup, find_key, lemma_key_index};
use crate::tui::app::{GroupingMode, spec_add_all, add_to_group, sort_keys, keys_of, texts, sort_group_keys, lemma_key_index_same_keys, lemma_sort_keys_members, spec_group_key};

verus! {

/// The display width of a text in terminal columns, as
/// `unicode_width::UnicodeWidthStr::width` reports it.
pub uninterp spec fn str_width(s: Seq<char>) -> nat;

/// The terminal width of `s`, through `UnicodeWidthStr::width`. Trusted: the
/// result is the named result [`str_width`].
#[verifier::external_body]
pub(crate) fn display_width(s: &str) -> (r: usize)
    ensures
        r == str_width(s@),
{
    unicode_width::UnicodeWidthStr::width(s)
}

/// `n` spaces.
pub open spec fn spaces(n: nat) -> Seq<char> {
    Seq::new(n, |i: int| ' ')
}

/// The characters a cell too narrow for its text keeps, and the width reached: as
/// long as a character and an ellipsis still fit within `width`, the character is
/// kept; otherwise an ellipsis of width one ends the cell.
pub open spec fn spec_fit(chars: Seq<char>, cur: int, width: int) -> (Seq<char>, int)
    decreases chars.len(),
{
    if chars.len() == 0 {
        (Seq::empty(), cur)
    } else {
        let cw = str_width(seq![chars[0]]) as int;
        if cur + cw + 1 > width {
            (seq!['…'], cur + 1)
        } else {
            let rest = spec_fit(chars.drop_first(), cur + cw, width);
            (seq![chars[0]] + rest.0, rest.1)
        }
    }
}

/// A table cell of `width` columns holding `text`: a text that fits is
/// left-aligned and padded with spaces to exactly `width` columns of display
/// width; a wider text is cut with `…` and padded to `width` columns.
pub open spec fn spec_render_cell(text: Seq<char>, width: nat) -> Seq<char> {
    let tw = str_width(text);
    if tw <= width {
        text + spaces((width - tw) as nat)
    } else {
        let f = spec_fit(text, 0, width as int);
        if f.1 < width { f.0 + spaces((width - f.1) as nat) } else { f.0 }
    }
}

/// Appends `n` spaces.
fn push_spaces(r: &mut String, n: usize)
    ensures
        final(r)@ == old(r)@ + spaces(n as nat),
{
    let mut k: usize = 0;
    while k < n
        invariant
            k <= n,
            r@ == old(r)@ + spaces(k as nat),
        decreases n - k,
    {
        push_char(r, ' ');
        assert(old(r)@ + spaces((k + 1) as nat) =~= (old(r)@ + spaces(k as nat)).push(' '));
        k += 1;
    }
}

/// Renders `text` as a cell of `width` columns.
pub fn render_cell(text: &str, width: usize) -> (r: String)
    ensures
        r@ == spec_render_cell(text@, width as nat),
{
    let text_width = display_width(text);
    let v = chars_of(text);
    if text_width <= width {
        let mut r = text.to_owned();
        push_spaces(&mut r, width - text_width);
        return r;
    }
    let mut result = String::new();
    let mut current_width: usize = 0;
    let mut i: usize = 0;
    let ghost w = width as int;
    assert(v@.skip(0) =~= v@);
    while i < v.len()
        invariant
            v@ == text@,
            w == width as int,
            str_width(text@) > width,
            i <= v@.len(),
            current_width <= width,
            spec_fit(text@, 0, w) == ({
                let f = spec_fit(v@.skip(i as int), current_width as int, w);
                (result@ + f.0, f.1)
            }),
        decreases v.len() - i,
    {
        assert(v@.skip(i as int).drop_first() =~= v@.skip(i + 1));
        assert(v@.skip(i as int)[0] == v@[i as int]);
        let mut cs = String::new();
        push_char(&mut cs, v[i]);
        assert(cs@ =~= seq![v@[i as int]]);
        let c_width = display_width(cs.as_str());
        assert(seq![v@.skip(i as int)[0]] =~= cs@);
        assert(v@.skip(i as int).len() > 0);
        if c_width >= width - current_width {
            assert(spec_fit(v@.skip(i as int), current_width as int, w) == (seq!['…'], current_width + 1));
            let ghost before = result@;
            push_char(&mut result, '…');
            assert(result@ =~= before + seq!['…']);
            if width - current_width > 1 {
                push_spaces(&mut result, width - current_width - 1);
            }
            return result;
        }
        let ghost before = result@;
        push_char(&mut result, v[i]);
        assert(before + (seq![v@[i as int]] + spec_fit(v@.skip(i + 1), current_width + c_width, w).0)
            =~= result@ + spec_fit(v@.skip(i + 1), current_width + c_width, w).0);
        current_width += c_width;
        i += 1;
    }
    assert(v@.skip(i as int) =~= Seq::<char>::empty());
    if current_width < width {
        push_spaces(&mut result, width - current_width);
    }
    result
}

/// The project column of a session: its host path for display, else its project
/// id.
pub open spec fn spec_project_display(s: Session, home: Option<Seq<char>>) -> Seq<char> {
    match s.host_path {
        Some(h) => spec_format_host(h@, home),
        None => s.project_id@,
    }
}

/// The project column of a session.
pub fn project_display(session: &Session, home: Option<&str>) -> (r: String)
    ensures
        r@ == spec_project_display(*session, crate::utils::text::opt_str_view(home)),
{
    match &session.host_path {
        Some(h) => format_host(h.as_str(), home),
        None => session.project_id.clone(),
    }
}

/// The glyph of a health in an icon set.
pub open spec fn spec_icon_for_health(icons: Icons, health: SessionHealth) -> Seq<char> {
    match health {
        SessionHealth::Healthy => icons.ok@,
        SessionHealth::Warn => icons.warn@,
        SessionHealth::Error => icons.error@,
        SessionHealth::Risk => icons.risk@,
        SessionHealth::Unknown => icons.unknown@,
    }
}

/// The glyph of a health.
pub fn icon_for_health<'a>(icons: &'a Icons, health: &SessionHealth) -> (r: &'a str)
    ensures
        r@ == spec_icon_for_health(*icons, *health),
{
    match health {
        SessionHealth::Healthy => icons.ok,
        SessionHealth::Warn => icons.warn,
        SessionHealth::Error => icons.error,
        SessionHealth::Risk => icons.risk,
        SessionHealth::Unknown => icons.unknown,
    }
}

/// The pages `[start, end)` of `len` rows, `page_size` rows each, the last
/// possibly shorter, from row `start` on.
pub open spec fn spec_chunks(start: nat, len: nat, page_size: nat) -> Seq<(usize, usize)>
    decreases len - start,
{
    if start >= len || page_size == 0 {
        Seq::empty()
    } else {
        let end = if start + page_size < len { start + page_size } else { len };
        seq![(start as usize, end as usize)] + spec_chunks(end, len, page_size)
    }
}

/// The pages cover the rows exactly once and in order: the first starts at
/// `start`, each starts where the one before ended, the last ends at `len`, and
/// every page but the last is full.
pub proof fn lemma_chunks_cover(start: nat, len: nat, page_size: nat)
    requires
        start < len <= usize::MAX,
        page_size > 0,
    ensures
        ({
            let c = spec_chunks(start, len, page_size);
            &&& c.len() > 0
            &&& c[0].0 == start
            &&& c[c.len() - 1].1 == len
            &&& forall|k: int| 0 <= k < c.len() ==> c[k].0 < #[trigger] c[k].1 <= c[k].0 + page_size
            &&& forall|k: int| 0 <= k < c.len() - 1 ==> #[trigger] c[k].1 == c[k + 1].0 && c[k].1 == c[k].0 + page_size
        }),
    decreases len - start,
{
    let end: nat = if start + page_size < len { start + page_size } else { len };
    let c = spec_chunks(start, len, page_size);
    let rest = spec_chunks(end, len, page_size);
    assert(c == seq![(start as usize, end as usize)] + rest);
    if end < len {
        lemma_chunks_cover(end, len, page_size);
        assert forall|k: int| 0 <= k < c.len() - 1 implies #[trigger] c[k].1 == c[k + 1].0 && c[k].1 == c[k].0 + page_size by {
            if k > 0 {
                assert(c[k] == rest[k - 1] && c[k + 1] == rest[k]);
            }
        }
        assert forall|k: int| 0 <= k < c.len() implies c[k].0 < #[trigger] c[k].1 <= c[k].0 + page_size by {
            if k > 0 {
                assert(c[k] == rest[k - 1]);
            }
        }
    } else {
        assert(rest =~= Seq::<(usize, usize)>::empty());
    }
}

/// The pages a table of `len` rows is printed in: `None` for one table without
/// page headers (no page size, or everything fits on one page), else the row
/// ranges of the pages.
pub open spec fn spec_pagination(len: nat, page_size: nat) -> Option<Seq<(usize, usize)>> {
    if page_size == 0 || len <= page_size { None } else { Some(spec_chunks(0, len, page_size)) }
}

/// Splits `len` rows into pages of `page_size` rows.
pub fn paginate(len: usize, page_size: usize) -> (r: Option<Vec<(usize, usize)>>)
    ensures
        match r {
            Some(v) => spec_pagination(len as nat, page_size as nat) == Some(v@),
            None => spec_pagination(len as nat, page_size as nat) is None,
        },
{
    if page_size == 0 || len <= page_size {
        return None;
    }
    let mut pages: Vec<(usize, usize)> = Vec::new();
    let mut start: usize = 0;
    while start < len
        invariant
            start <= len,
            page_size > 0,
            len > page_size,
            spec_chunks(0, len as nat, page_size as nat) == pages@ + spec_chunks(start as nat, len as nat, page_size as nat),
        decreases len - start,
    {
        let end = if start < len - page_size { start + page_size } else { len };
        pages.push((start, end));
        assert(pages@ + spec_chunks(end as nat, len as nat, page_size as nat)
            =~= pages@.drop_last() + spec_chunks(start as nat, len as nat, page_size as nat));
        start = end;
    }
    assert(spec_chunks(start as nat, len as nat, page_size as nat) =~= Seq::<(usize, usize)>::empty());
    assert(pages@ + Seq::<(usize, usize)>::empty() =~= pages@);
    Some(pages)
}

/// The groups of a grouped listing: the sessions grouped by project as the tree
/// groups them by host, keys in ascending order, each with the positions of its
/// sessions in listing order.
pub fn listing_groups(sessions: &[Arc<Session>], home: Option<&str>) -> (r: Vec<(String, Vec<usize>)>)
    ensures
        ({
            let gm = spec_add_all(Seq::empty(), 0, sessions@, GroupingMode::Host, opt_str_view(home));
            &&& r@.map_values(|g: (String, Vec<usize>)| g.0@) == sort_keys(keys_of(gm), GroupingMode::Host)
            &&& forall|k: int| 0 <= k < r@.len() ==> lookup(gm, #[trigger] r@[k].0@) == Some(r@[k].1@)
        }),
{
    let ghost hv = opt_str_view(home);
    let mut groups: Vec<(String, Vec<usize>)> = Vec::new();
    let mut i: usize = 0;
    while i < sessions.len()
        invariant
            i <= sessions@.len(),
            hv == opt_str_view(home),
            groups@.map_values(|g: (String, Vec<usize>)| (g.0@, g.1@))
                == spec_add_all(Seq::empty(), 0, sessions@.take(i as int), GroupingMode::Host, hv),
        decreases sessions.len() - i,
    {
        let ghost before = groups@.map_values(|g: (String, Vec<usize>)| (g.0@, g.1@));
        let ghost gx = groups@.map_values(|g: (String, Vec<usize>)| (g.0@, g.1));
        assert(sessions@.take(i + 1).drop_last() =~= sessions@.take(i as int));
        assert(sessions@.take(i + 1).last() == sessions@[i as int]);
        let key = project_display(&*sessions[i], home);
        assert(key@ == spec_group_key(*sessions@[i as int], GroupingMode::Host, hv));
        assert(spec_add_all(Seq::empty(), 0, sessions@.take(i + 1), GroupingMode::Host, hv)
            == add_to_group(before, key@, i));
        proof {
            lemma_key_index_same_keys(gx, before, key@);
            lemma_key_index(before, key@);
        }
        match find_key(&groups, key.as_str()) {
            Some(g) => {
                let (gkey, mut list) = groups.remove(g);
                list.push(i);
                groups.insert(g, (gkey, list));
                assert(groups@.map_values(|g: (String, Vec<usize>)| (g.0@, g.1@)) =~= add_to_group(before, key@, i));
            },
            None => {
                let mut list: Vec<usize> = Vec::new();
                list.push(i);
                let ghost kv = key@;
                groups.push((key, list));
                assert(groups@.map_values(|g: (String, Vec<usize>)| (g.0@, g.1@)) =~= add_to_group(before, kv, i));
            },
        }
        i += 1;
    }
    assert(sessions@.take(i as int) =~= sessions@);
    let ghost gm = groups@.map_values(|g: (String, Vec<usize>)| (g.0@, g.1@));
    let mut keys: Vec<String> = Vec::new();
    let mut j: usize = 0;
    while j < groups.len()
        invariant
            j <= groups@.len(),
            gm == groups@.map_values(|g: (String, Vec<usize>)| (g.0@, g.1@)),
            texts(keys@) == keys_of(gm).take(j as int),
        decreases groups.len() - j,
    {
        let k = groups[j].0.clone();
        let ghost prev = keys@;
        keys.push(k);
        assert(texts(keys@) =~= texts(prev).push(k@));
        assert(keys_of(gm).take(j + 1) =~= keys_of(gm).take(j as int).push(gm[j as int].0));
        j += 1;
    }
    assert(keys_of(gm).take(j as int) =~= keys_of(gm));
    let sorted = sort_group_keys(&keys, GroupingMode::Host);
    proof { lemma_sort_keys_members(keys_of(gm), GroupingMode::Host); }
    let mut r: Vec<(String, Vec<usize>)> = Vec::new();
    let mut t: usize = 0;
    while t < sorted.len()
        invariant
            t <= sorted@.len(),
            gm == groups@.map_values(|g: (String, Vec<usize>)| (g.0@, g.1@)),
            texts(sorted@) == sort_keys(keys_of(gm), GroupingMode::Host),
            forall|q: int| 0 <= q < sorted@.len() ==> keys_of(gm).contains(#[trigger] texts(sorted@)[q]),
            r@.map_values(|g: (String, Vec<usize>)| g.0@) == texts(sorted@).take(t as int),
            forall|k: int| 0 <= k < r@.len() ==> lookup(gm, #[trigger] r@[k].0@) == Some(r@[k].1@),
        decreases sorted.len() - t,
    {
        let ghost gx = groups@.map_values(|g: (String, Vec<usize>)| (g.0@, g.1));
        proof {
            lemma_key_index_same_keys(gx, gm, sorted@[t as int]@);
            lemma_key_index(gm, sorted@[t as int]@);
            assert(keys_of(gm).contains(texts(sorted@)[t as int]));
            let w = choose|w: int| 0 <= w < keys_of(gm).len() && keys_of(gm)[w] == texts(sorted@)[t as int];
            assert(gm[w].0 == sorted@[t as int]@);
        }
        match find_key(&groups, sorted[t].as_str()) {
            Some(g) => {
                let list = groups[g].1.clone();
                assert(list@ == gm[g as int].1);
                let ghost prev = r@;
                r.push((sorted[t].clone(), list));
                assert(r@.map_values(|g: (String, Vec<usize>)| g.0@) =~= prev.map_values(|g: (String, Vec<usize>)| g.0@).push(sorted@[t as int]@));
            },
            None => {},
        }
        assert(texts(sorted@).take(t + 1) =~= texts(sorted@).take(t as int).push(sorted@[t as int]@));
        t += 1;
    }
    assert(texts(sorted@).take(t as int) =~= texts(sorted@));
    r
}

/// The width of the id column of a session table.
pub const ID_W: usize = 12;
/// The width of the project column.
pub const PROJECT_W: usize = 28;
/// The width of the last-update column.
pub const UPDATED_W: usize = 19;
/// The width of the size column.
pub const SIZE_W: usize = 10;
/// The width of the health column.
pub const HEALTH_W: usize = 12;
/// The length of the rule under the table heading: the columns and the spaces
/// between them.
pub const TABLE_RULE_W: usize = ID_W + PROJECT_W + UPDATED_W + SIZE_W + HEALTH_W + 4;

/// The column headings of a session table with their widths.
pub fn table_header() -> (r: Vec<(&'static str, usize)>)
    ensures
        r@.map_values(|c: (&'static str, usize)| (c.0@, c.1)) == seq![
            ("ID"@, ID_W),
            ("Project"@, PROJECT_W),
            ("Updated"@, UPDATED_W),
            ("Size"@, SIZE_W),
            ("Health"@, HEALTH_W),
        ],
{
    let mut r: Vec<(&'static str, usize)> = Vec::new();
    r.push(("ID", ID_W));
    r.push(("Project", PROJECT_W));
    r.push(("Updated", UPDATED_W));
    r.push(("Size", SIZE_W));
    r.push(("Health", HEALTH_W));
    assert(r@.map_values(|c: (&'static str, usize)| (c.0@, c.1)) =~= seq![
        ("ID"@, ID_W),
        ("Project"@, PROJECT_W),
        ("Updated"@, UPDATED_W),
        ("Size"@, SIZE_W),
        ("Health"@, HEALTH_W),
    ]);
    r
}

/// The texts of a session's row before the cells are cut or padded: short id,
/// project, last update, the size as the caller formatted it, and the health
/// glyph with the health's text.
pub open spec fn spec_session_cells(s: Session, icons: Icons, home: Option<Seq<char>>, size_text: Seq<char>) -> Seq<Seq<char>> {
    seq![
        s.display_id@,
        spec_project_display(s, home),
        time_label(s.updated_at.secs as int, s.updated_at.nanos as int, "%Y-%m-%d %H:%M:%S"@),
        size_text,
        spec_icon_for_health(icons, s.health) + " "@ + spec_health_label(s.health),
    ]
}

/// A session's row in a listing starts with its short id: for a session named
/// by its file `p-d.json` (`d` holding no `-`), whose short id was taken from
/// that name as [`Session::from_path`] takes it, the first cell is `d`.
pub proof fn lemma_listing_starts_with_short_id(
    s: Session,
    icons: Icons,
    home: Option<Seq<char>>,
    size_text: Seq<char>,
    p: Seq<char>,
    d: Seq<char>,
)
    requires
        s.display_id@ == spec_display_id(s.id@),
        s.id@ == p + "-"@ + d + ".json"@,
        !d.contains('-'),
    ensures
        spec_session_cells(s, icons, home, size_text)[0] == d,
{
    lemma_display_id_is_last_part(p, d);
}

/// The texts of a session's row in a session table.
pub fn session_cells(s: &Session, icons: &Icons, home: Option<&str>, size_text: &str) -> (r: Vec<String>)
    requires
        time_ok(s.updated_at),
    ensures
        r@.map_values(|c: String| c@) == spec_session_cells(*s, *icons, opt_str_view(home), size_text@),
{
    let updated = match format_time(s.updated_at, "%Y-%m-%d %H:%M:%S") {
        Some(t) => t,
        None => String::new(),
    };
    let mut health = icon_for_health(icons, &s.health).to_owned();
    health.append(" ");
    health.append(s.health.label());
    let mut r: Vec<String> = Vec::new();
    r.push(s.display_id.clone());
    r.push(project_display(s, home));
    r.push(updated);
    r.push(size_text.to_owned());
    r.push(health);
    assert(r@.map_values(|c: String| c@) =~= spec_session_cells(*s, *icons, opt_str_view(home), size_text@));
    r
}

} // verus!
