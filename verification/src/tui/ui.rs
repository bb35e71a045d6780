use vstd::prelude::*;
use std::sync::Arc;
use crate::model::cache::{lookup, find_key};
use crate::model::session::{
    Session, SessionHealth, spec_health_label, spec_validation, lemma_validation_outcomes, more_than_hour_after,
    LARGE_SESSION_BYTES,
};
use crate::utils::json::json_parse;
use crate::tui::app::{App, GroupingMode, InputMode, Selection, SelectionView, lemma_key_index_same_keys};
use crate::model::cache::lemma_key_index;
use crate::tui::theme::{Color, Theme};
use crate::utils::icons::Icons;
use crate::utils::fs::{format_host, spec_format_host};
use crate::utils::text::{chars_of, string_from_chars, push_char, usize_text, decimal, contains_str, spec_contains, opt_str_view};
use crate::utils::time::{format_time, time_label, time_ok, Timestamp};

verus! {

/// `input` cut to at most `max_chars` characters, the last kept one replaced by
/// `…` when something was cut.
pub open spec fn spec_truncate_with_ellipsis(input: Seq<char>, max_chars: nat) -> Seq<char> {
    if max_chars == 0 {
        Seq::empty()
    } else if input.len() <= max_chars {
        input
    } else if max_chars <= 1 {
        seq!['…']
    } else {
        input.take(max_chars - 1).push('…')
    }
}

/// A cut text fits its budget, and a text that already fits is left as it is.
pub proof fn lemma_truncate_fits(input: Seq<char>, max_chars: nat)
    ensures
        spec_truncate_with_ellipsis(input, max_chars).len() <= max_chars,
        input.len() <= max_chars ==> spec_truncate_with_ellipsis(input, max_chars) == input,
        input.len() > max_chars > 0 ==> spec_truncate_with_ellipsis(input, max_chars).len() == max_chars
            && spec_truncate_with_ellipsis(input, max_chars).last() == '…'
            && spec_truncate_with_ellipsis(input, max_chars).drop_last() == input.take(max_chars - 1),
{
    if input.len() > max_chars > 1 {
        assert(spec_truncate_with_ellipsis(input, max_chars).drop_last() =~= input.take(max_chars - 1));
    } else if input.len() > max_chars && max_chars == 1 {
        assert(seq!['…'].drop_last() =~= input.take(0));
    }
}

/// Truncates `input` to `max_chars` characters, marking a cut with `…`.
pub fn truncate_with_ellipsis(input: &str, max_chars: usize) -> (r: String)
    ensures
        r@ == spec_truncate_with_ellipsis(input@, max_chars as nat),
{
    if max_chars == 0 {
        return String::new();
    }
    let v = chars_of(input);
    let count = v.len();
    if count <= max_chars {
        return input.to_owned();
    }
    if max_chars <= 1 {
        let mut r = String::new();
        push_char(&mut r, '…');
        return r;
    }
    let kept = max_chars - 1;
    let mut out = string_from_chars(v.as_slice(), 0, kept);
    push_char(&mut out, '…');
    out
}

/// A piece of a line on screen: its text, its color (none for the default) and
/// whether it is bold.
#[derive(Clone, Debug, PartialEq)]
pub struct Piece {
    pub text: String,
    pub color: Option<Color>,
    pub bold: bool,
}

impl View for Piece {
    type V = (Seq<char>, Option<Color>, bool);

    open spec fn view(&self) -> (Seq<char>, Option<Color>, bool) {
        (self.text@, self.color, self.bold)
    }
}

/// The models of a line's pieces.
pub open spec fn pieces_view(v: Seq<Piece>) -> Seq<(Seq<char>, Option<Color>, bool)> {
    v.map_values(|p: Piece| p@)
}

/// A piece of `text`.
fn piece(text: &str, color: Option<Color>, bold: bool) -> (r: Piece)
    ensures
        r@ == (text@, color, bold),
{
    Piece { text: text.to_owned(), color, bold }
}

/// The title of the tree panel.
pub open spec fn spec_tree_title(mode: GroupingMode) -> Seq<char> {
    match mode {
        GroupingMode::Host => " Projects / Sessions "@,
        GroupingMode::Month => " Months / Sessions "@,
    }
}

/// The title of the tree panel for a grouping.
pub fn tree_title(mode: GroupingMode) -> (r: &'static str)
    ensures
        r@ == spec_tree_title(mode),
{
    match mode {
        GroupingMode::Host => " Projects / Sessions ",
        GroupingMode::Month => " Months / Sessions ",
    }
}

/// The characters a tree line of a panel `width` columns wide may hold: the
/// width less borders, highlight mark and padding, at least none.
pub fn tree_line_budget(width: u16) -> (r: usize)
    ensures
        r == (if width >= 6 { width - 6 } else { 0 }),
{
    width.saturating_sub(6) as usize
}

/// The mark of a health in the tree and its color.
pub open spec fn spec_health_mark(h: SessionHealth, theme: Theme) -> (Seq<char>, Color) {
    match h {
        SessionHealth::Unknown => ("?"@, theme.key_desc),
        SessionHealth::Healthy => ("•"@, Color::Green),
        SessionHealth::Warn => ("!"@, Color::Yellow),
        SessionHealth::Error => ("×"@, Color::Red),
        SessionHealth::Risk => ("▲"@, Color::Magenta),
    }
}

/// Each health has its own fixed mark in every theme: unknown `?` in the
/// theme's description color, healthy a green `•`, a warning (a missing host
/// project) a yellow `!`, an error (an unusable file) a red `×`, a risk a
/// magenta `▲`; no two healths share a glyph.
pub proof fn lemma_health_marks(theme: Theme)
    ensures
        spec_health_mark(SessionHealth::Unknown, theme) == ("?"@, theme.key_desc),
        spec_health_mark(SessionHealth::Healthy, theme) == ("•"@, Color::Green),
        spec_health_mark(SessionHealth::Warn, theme) == ("!"@, Color::Yellow),
        spec_health_mark(SessionHealth::Error, theme) == ("×"@, Color::Red),
        spec_health_mark(SessionHealth::Risk, theme) == ("▲"@, Color::Magenta),
        forall|a: SessionHealth, b: SessionHealth|
            a != b ==> #[trigger] spec_health_mark(a, theme).0 != #[trigger] spec_health_mark(b, theme).0,
{
    reveal_strlit("?");
    reveal_strlit("•");
    reveal_strlit("!");
    reveal_strlit("×");
    reveal_strlit("▲");
    assert forall|a: SessionHealth, b: SessionHealth|
        a != b implies #[trigger] spec_health_mark(a, theme).0 != #[trigger] spec_health_mark(b, theme).0 by {
        assert(spec_health_mark(a, theme).0[0] != spec_health_mark(b, theme).0[0]);
    }
}

/// Validation and the tree agree: a readable session of normal size and time
/// whose recorded host project is missing is marked with a yellow `!`, one whose
/// host exists with a green `•`, and an empty, unreadable or unparsable one with
/// a red `×`.
pub proof fn lemma_validation_marks(
    size: u64,
    health: SessionHealth,
    host: Option<Seq<char>>,
    updated: Timestamp,
    content: Option<Seq<char>>,
    host_exists: bool,
    now: Timestamp,
    theme: Theme,
)
    ensures
        ({
            let h = spec_validation(size, health, host, updated, content, host_exists, now).0;
            let readable = size != 0 && content is Some && json_parse(content->0) is Some;
            &&& !readable ==> spec_health_mark(h, theme) == ("×"@, Color::Red)
            &&& readable && size <= LARGE_SESSION_BYTES && !more_than_hour_after(updated, now) && host is Some
                ==> spec_health_mark(h, theme) == if host_exists { ("•"@, Color::Green) } else { ("!"@, Color::Yellow) }
        }),
{
    lemma_validation_outcomes(size, health, host, updated, content, host_exists, now);
    lemma_health_marks(theme);
}

/// The mark of a health in the tree, with its color.
pub fn health_mark(h: SessionHealth, theme: &Theme) -> (r: (&'static str, Color))
    ensures
        (r.0@, r.1) == spec_health_mark(h, *theme),
{
    match h {
        SessionHealth::Unknown => ("?", theme.key_desc),
        SessionHealth::Healthy => ("•", Color::Green),
        SessionHealth::Warn => ("!", Color::Yellow),
        SessionHealth::Error => ("×", Color::Red),
        SessionHealth::Risk => ("▲", Color::Magenta),
    }
}

/// The color a health is shown in among the details.
pub fn health_color(h: SessionHealth, theme: &Theme) -> (r: Color)
    ensures
        r == spec_health_mark(h, *theme).1,
{
    health_mark(h, theme).1
}

/// The marker of a group heading: closed where the group is folded, open
/// where it is not.
pub open spec fn fold_marker(folded: bool) -> Seq<char> {
    if folded { "▸ "@ } else { "▾ "@ }
}

/// The heading line of a group with `count` sessions, cut to `budget`
/// characters.
pub open spec fn spec_group_line(id: Seq<char>, folded: bool, count: nat, budget: nat, theme: Theme) -> Seq<(Seq<char>, Option<Color>, bool)> {
    seq![(
        spec_truncate_with_ellipsis(fold_marker(folded) + id + " ("@ + decimal(count) + ")"@, budget),
        Some(theme.folder),
        true,
    )]
}

/// The line of a session: indent, chat glyph, health mark and short id, the id
/// cut to the budget less six characters.
pub open spec fn spec_session_line(s: Session, chat: Seq<char>, budget: nat, theme: Theme) -> Seq<(Seq<char>, Option<Color>, bool)> {
    let mark = spec_health_mark(s.health, theme);
    let cut: nat = if budget >= 6 { (budget - 6) as nat } else { 0 };
    seq![
        ("  "@, None, false),
        (chat + " "@, Some(theme.key_desc), false),
        (mark.0, Some(mark.1), false),
        (" "@ + spec_truncate_with_ellipsis(s.display_id@, cut), None, false),
    ]
}

/// The line of a tree row: a group heading with its session count, a session
/// found through the id index, or the bare id of a session the index lacks.
pub open spec fn spec_tree_line(app: App, row: SelectionView, chat: Seq<char>, budget: nat, theme: Theme) -> Seq<(Seq<char>, Option<Color>, bool)> {
    match row {
        SelectionView::Group(id) => {
            let count: nat = match lookup(app.group_model(), id) {
                Some(v) => v.len(),
                None => 0,
            };
            spec_group_line(id, app.folded().contains(id), count, budget, theme)
        },
        SelectionView::Session(id) => match lookup(app.registry.index_model(), id) {
            Some(i) => if (i as int) < app.registry.sessions@.len() {
                spec_session_line(*app.registry.sessions@[i as int], chat, budget, theme)
            } else {
                seq![(id, None, false)]
            },
            None => seq![(id, None, false)],
        },
    }
}

/// The line of the heading of group `id`.
fn group_line(app: &App, id: &String, icons: &Icons, budget: usize, theme: &Theme) -> (r: Vec<Piece>)
    ensures
        pieces_view(r@) == spec_tree_line(*app, SelectionView::Group(id@), icons.chat@, budget as nat, *theme),
{
    let ghost gm = app.group_model();
    let ghost gx = app.sessions_by_group@.map_values(|e: (String, Vec<usize>)| (e.0@, e.1));
    proof {
        lemma_key_index_same_keys(gx, gm, id@);
        lemma_key_index(gm, id@);
    }
    let count: usize = match find_key(&app.sessions_by_group, id.as_str()) {
        Some(g) => {
            assert(gm[g as int].1 == app.sessions_by_group@[g as int].1@);
            app.sessions_by_group[g].1.len()
        },
        None => 0,
    };
    assert(count as nat == match lookup(gm, id@) { Some(v) => v.len(), None => 0 });
    let folded = app.is_group_collapsed(id.as_str());
    let mut label = if folded { "▸ ".to_owned() } else { "▾ ".to_owned() };
    proof {
        reveal_strlit("▸ ");
        reveal_strlit("▾ ");
    }
    label.append(id.as_str());
    label.append(" (");
    let c = usize_text(count);
    label.append(c.as_str());
    label.append(")");
    let mut r: Vec<Piece> = Vec::new();
    r.push(Piece { text: truncate_with_ellipsis(label.as_str(), budget), color: Some(theme.folder), bold: true });
    assert(pieces_view(r@) =~= spec_tree_line(*app, SelectionView::Group(id@), icons.chat@, budget as nat, *theme));
    r
}

/// The line of session `s` in the tree.
fn session_line(s: &Session, icons: &Icons, budget: usize, theme: &Theme) -> (r: Vec<Piece>)
    ensures
        pieces_view(r@) == spec_session_line(*s, icons.chat@, budget as nat, *theme),
{
    let mark = health_mark(s.health, theme);
    let mut chat = icons.chat.to_owned();
    chat.append(" ");
    let mut id_text = " ".to_owned();
    let cut = budget.saturating_sub(6);
    let t = truncate_with_ellipsis(s.display_id.as_str(), cut);
    id_text.append(t.as_str());
    let mut r: Vec<Piece> = Vec::new();
    r.push(piece("  ", None, false));
    r.push(Piece { text: chat, color: Some(theme.key_desc), bold: false });
    r.push(piece(mark.0, Some(mark.1), false));
    r.push(Piece { text: id_text, color: None, bold: false });
    assert(pieces_view(r@) =~= spec_session_line(*s, icons.chat@, budget as nat, *theme));
    r
}

/// The lines of the tree, one for each row.
pub fn tree_lines(app: &App, icons: &Icons, budget: usize, theme: &Theme) -> (r: Vec<Vec<Piece>>)
    ensures
        r@.len() == app.rows().len(),
        forall|k: int| 0 <= k < r@.len() ==> pieces_view(#[trigger] r@[k]@) == spec_tree_line(
            *app,
            app.rows()[k],
            icons.chat@,
            budget as nat,
            *theme,
        ),
{
    let mut r: Vec<Vec<Piece>> = Vec::new();
    let mut k: usize = 0;
    while k < app.flat_items.len()
        invariant
            k <= app.flat_items@.len(),
            r@.len() == k,
            forall|j: int| 0 <= j < k ==> pieces_view(#[trigger] r@[j]@) == spec_tree_line(
                *app,
                app.rows()[j],
                icons.chat@,
                budget as nat,
                *theme,
            ),
        decreases app.flat_items.len() - k,
    {
        assert(app.rows()[k as int] == app.flat_items@[k as int]@);
        let line = match &app.flat_items[k] {
            Selection::Group(id) => group_line(app, id, icons, budget, theme),
            Selection::Session(id) => match app.registry.find_by_id(id.as_str()) {
                Some(s) => session_line(&**s, icons, budget, theme),
                None => {
                    let mut v: Vec<Piece> = Vec::new();
                    v.push(piece(id.as_str(), None, false));
                    assert(pieces_view(v@) =~= seq![(id@, None::<Color>, false)]);
                    v
                },
            },
        };
        r.push(line);
        k += 1;
    }
    r
}

/// The label pieces of the details panel, in order.
pub open spec fn detail_labels() -> Seq<Seq<char>> {
    seq!["ID:       "@, "Project:  "@, "Host:     "@, "Updated:  "@, "Size:     "@, "Health:   "@]
}

/// The details of a session: id, project, host (`Unknown` where none is
/// recorded), last update, the given size text and health, each value after its
/// label in the title color.
pub open spec fn spec_status_lines(s: Session, home: Option<Seq<char>>, size_text: Seq<char>, theme: Theme) -> Seq<Seq<(Seq<char>, Option<Color>, bool)>> {
    let label = |i: int| (detail_labels()[i], Some(theme.title), true);
    let host = match s.host_path {
        Some(h) => spec_format_host(h@, home),
        None => "Unknown"@,
    };
    seq![
        seq![label(0), (s.id@, None, false)],
        seq![label(1), (s.project_id@, None, false)],
        seq![label(2), (host, None, false)],
        seq![label(3), (time_label(s.updated_at.secs as int, s.updated_at.nanos as int, "%Y-%m-%d %H:%M:%S"@), None, false)],
        seq![label(4), (size_text, None, false)],
        seq![label(5), (spec_health_label(s.health), Some(spec_health_mark(s.health, theme).1), true)],
    ]
}

/// A label followed by its value.
fn labelled(label: &str, value: String, value_color: Option<Color>, value_bold: bool, theme: &Theme) -> (r: Vec<Piece>)
    ensures
        pieces_view(r@) == seq![(label@, Some(theme.title), true), (value@, value_color, value_bold)],
{
    let mut r: Vec<Piece> = Vec::new();
    r.push(piece(label, Some(theme.title), true));
    r.push(Piece { text: value, color: value_color, bold: value_bold });
    assert(pieces_view(r@) =~= seq![(label@, Some(theme.title), true), (value@, value_color, value_bold)]);
    r
}

/// The lines of the details panel for session `s`; the size is shown as the
/// caller formatted it.
pub fn status_lines(s: &Session, home: Option<&str>, size_text: &str, theme: &Theme) -> (r: Vec<Vec<Piece>>)
    requires
        time_ok(s.updated_at),
    ensures
        r@.map_values(|l: Vec<Piece>| pieces_view(l@)) == spec_status_lines(*s, opt_str_view(home), size_text@, *theme),
{
    let host = match &s.host_path {
        Some(h) => format_host(h.as_str(), home),
        None => "Unknown".to_owned(),
    };
    let updated = match format_time(s.updated_at, "%Y-%m-%d %H:%M:%S") {
        Some(t) => t,
        None => String::new(),
    };
    let mut r: Vec<Vec<Piece>> = Vec::new();
    r.push(labelled("ID:       ", s.id.clone(), None, false, theme));
    r.push(labelled("Project:  ", s.project_id.clone(), None, false, theme));
    r.push(labelled("Host:     ", host, None, false, theme));
    r.push(labelled("Updated:  ", updated, None, false, theme));
    r.push(labelled("Size:     ", size_text.to_owned(), None, false, theme));
    let health_text = s.health.label().to_owned();
    r.push(labelled("Health:   ", health_text, Some(health_color(s.health, theme)), true, theme));
    assert(r@.map_values(|l: Vec<Piece>| pieces_view(l@)) =~= spec_status_lines(*s, opt_str_view(home), size_text@, *theme));
    r
}

/// The text shown in the preview panel: the loaded preview, or a notice that it
/// is loading.
pub fn preview_text(preview: &Option<String>) -> (r: &str)
    ensures
        r@ == match preview {
            Some(p) => p@,
            None => "Loading preview..."@,
        },
{
    match preview {
        Some(p) => p.as_str(),
        None => "Loading preview...",
    }
}

/// The text shown where no session is selected: the current message, or an
/// invitation to select one.
pub fn placeholder_text(message: &Option<String>) -> (r: &str)
    ensures
        r@ == match message {
            Some(m) => m@,
            None => "Select a session to view details"@,
        },
{
    match message {
        Some(m) => m.as_str(),
        None => "Select a session to view details",
    }
}

/// Who a line of the preview belongs to.
#[derive(Clone, Copy, Debug, PartialEq, Eq, Structural)]
pub enum LineRole {
    User,
    Gemini,
    Plain,
}

/// Whether some piece of a line contains `word`.
pub open spec fn any_contains(spans: Seq<Seq<char>>, word: Seq<char>) -> bool {
    exists|i: int| 0 <= i < spans.len() && spec_contains(#[trigger] spans[i], word)
}

/// The role of a preview line with pieces `spans`: the user's where a piece
/// contains `USER`, else Gemini's where one contains `GEMINI`.
pub open spec fn spec_line_role(spans: Seq<Seq<char>>) -> LineRole {
    if any_contains(spans, "USER"@) {
        LineRole::User
    } else if any_contains(spans, "GEMINI"@) {
        LineRole::Gemini
    } else {
        LineRole::Plain
    }
}

/// Whether some piece contains `word`.
fn spans_contain(spans: &Vec<String>, word: &str) -> (r: bool)
    ensures
        r == any_contains(spans@.map_values(|s: String| s@), word@),
{
    let ghost sv = spans@.map_values(|s: String| s@);
    let mut i: usize = 0;
    while i < spans.len()
        invariant
            i <= spans@.len(),
            sv == spans@.map_values(|s: String| s@),
            forall|j: int| 0 <= j < i ==> !spec_contains(#[trigger] sv[j], word@),
        decreases spans.len() - i,
    {
        if contains_str(spans[i].as_str(), word) {
            assert(spec_contains(sv[i as int], word@));
            return true;
        }
        i += 1;
    }
    false
}

/// The role of a preview line, from the texts of its pieces.
pub fn line_role(spans: &Vec<String>) -> (r: LineRole)
    ensures
        r == spec_line_role(spans@.map_values(|s: String| s@)),
{
    if spans_contain(spans, "USER") {
        LineRole::User
    } else if spans_contain(spans, "GEMINI") {
        LineRole::Gemini
    } else {
        LineRole::Plain
    }
}

/// The color a role's lines are set in, bold; plain lines keep their style.
pub fn role_color(role: LineRole, theme: &Theme) -> (r: Option<Color>)
    ensures
        r == match role {
            LineRole::User => Some(theme.user_msg),
            LineRole::Gemini => Some(theme.gemini_msg),
            LineRole::Plain => None::<Color>,
        },
{
    match role {
        LineRole::User => Some(theme.user_msg),
        LineRole::Gemini => Some(theme.gemini_msg),
        LineRole::Plain => None,
    }
}

/// The keys listed in normal mode, each with what it does.
pub open spec fn normal_hints() -> Seq<(Seq<char>, Seq<char>)> {
    seq![
        ("q "@, "quit "@),
        ("j/k "@, "navigate "@),
        ("h/l "@, "fold/unfold "@),
        ("space "@, "toggle group "@),
        ("g "@, "group "@),
        ("d "@, "delete "@),
        ("r "@, "reload "@),
        ("p "@, "deep preview "@),
        ("enter "@, "select "@),
    ]
}

/// The pieces of hints: each key in the title color and its description in
/// the description color, hints parted by `| `.
pub open spec fn hint_pieces(hints: Seq<(Seq<char>, Seq<char>)>, theme: Theme) -> Seq<(Seq<char>, Option<Color>, bool)>
    decreases hints.len(),
{
    if hints.len() == 0 {
        Seq::empty()
    } else {
        let last = seq![(hints.last().0, Some(theme.title), false), (hints.last().1, Some(theme.key_desc), false)];
        if hints.len() == 1 {
            last
        } else {
            hint_pieces(hints.drop_last(), theme) + seq![("| "@, None, false)] + last
        }
    }
}

/// The keys bar: a `[KEYS]` heading, then the keys of normal mode, or the
/// question of a delete to confirm with its answers.
pub open spec fn spec_keys_bar(mode: InputMode, theme: Theme) -> Seq<(Seq<char>, Option<Color>, bool)> {
    let head = seq![("[KEYS] "@, Some(theme.key_hint), true)];
    match mode {
        InputMode::Normal => head + hint_pieces(normal_hints(), theme),
        InputMode::ConfirmDelete => head + seq![
            ("CONFIRM DELETE? "@, Some(Color::Red), true),
            ("y "@, Some(Color::Green), false),
            ("yes "@, Some(theme.key_desc), false),
            ("| "@, None, false),
            ("n "@, Some(Color::Yellow), false),
            ("no "@, Some(theme.key_desc), false),
        ],
    }
}

/// Appends a hint (after a `| ` where one came before).
fn push_hint(v: &mut Vec<Piece>, first: bool, key: &str, desc: &str, theme: &Theme)
    ensures
        pieces_view(final(v)@) == pieces_view(old(v)@) + (if first { Seq::empty() } else { seq![("| "@, None::<Color>, false)] })
            + seq![(key@, Some(theme.title), false), (desc@, Some(theme.key_desc), false)],
{
    let ghost before = pieces_view(v@);
    if !first {
        v.push(piece("| ", None, false));
    }
    v.push(piece(key, Some(theme.title), false));
    v.push(piece(desc, Some(theme.key_desc), false));
    assert(pieces_view(v@) =~= before + (if first { Seq::empty() } else { seq![("| "@, None::<Color>, false)] })
        + seq![(key@, Some(theme.title), false), (desc@, Some(theme.key_desc), false)]);
}

/// The pieces of the keys bar in input mode `mode`.
pub fn keys_bar(mode: InputMode, theme: &Theme) -> (r: Vec<Piece>)
    ensures
        pieces_view(r@) == spec_keys_bar(mode, *theme),
{
    let mut v: Vec<Piece> = Vec::new();
    v.push(piece("[KEYS] ", Some(theme.key_hint), true));
    match mode {
        InputMode::Normal => {
            let ghost h = normal_hints();
            let ghost t = *theme;
            let ghost head = seq![("[KEYS] "@, Some(t.key_hint), true)];
            let hints: Vec<(&str, &str)> = vec![
                ("q ", "quit "),
                ("j/k ", "navigate "),
                ("h/l ", "fold/unfold "),
                ("space ", "toggle group "),
                ("g ", "group "),
                ("d ", "delete "),
                ("r ", "reload "),
                ("p ", "deep preview "),
                ("enter ", "select "),
            ];
            assert(hints@.map_values(|x: (&str, &str)| (x.0@, x.1@)) =~= h);
            assert(pieces_view(v@) =~= head + hint_pieces(h.take(0), t));
            let mut i: usize = 0;
            while i < hints.len()
                invariant
                    i <= hints@.len(),
                    hints@.map_values(|x: (&str, &str)| (x.0@, x.1@)) == h,
                    t == *theme,
                    head == seq![("[KEYS] "@, Some(t.key_hint), true)],
                    pieces_view(v@) == head + hint_pieces(h.take(i as int), t),
                decreases hints.len() - i,
            {
                assert(h.take(i + 1).drop_last() =~= h.take(i as int));
                assert(h.take(i + 1).last() == (hints@[i as int].0@, hints@[i as int].1@));
                let (key, desc) = hints[i];
                push_hint(&mut v, i == 0, key, desc, theme);
                assert(pieces_view(v@) =~= head + hint_pieces(h.take(i + 1), t));
                i += 1;
            }
            assert(h.take(9) =~= h);
        },
        InputMode::ConfirmDelete => {
            v.push(piece("CONFIRM DELETE? ", Some(Color::Red), true));
            v.push(piece("y ", Some(Color::Green), false));
            v.push(piece("yes ", Some(theme.key_desc), false));
            v.push(piece("| ", None, false));
            v.push(piece("n ", Some(Color::Yellow), false));
            v.push(piece("no ", Some(theme.key_desc), false));
            assert(pieces_view(v@) =~= spec_keys_bar(mode, *theme));
        },
    }
    v
}

} // verus!
