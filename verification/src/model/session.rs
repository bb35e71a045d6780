use vstd::prelude::*;
use crate::utils::json::{JsonValue, JsonView, json_get, json_as_str, json_as_array, json_parse, parse_json};
use crate::utils::text::{chars_of, string_from_chars, str_eq, last_index_of, first_index_of, lemma_last_index_of, lemma_first_index_of, rfind_char, find_char, opt_string_view, opt_str_view};
use crate::utils::time::{Timestamp, spec_before, now, MAX_UTC_SECS};

verus! {

/// The health of a session file, as validation judges it.
#[derive(Clone, Copy, Debug, PartialEq, Eq, Structural)]
pub enum SessionHealth {
    /// Not validated yet.
    Unknown,
    /// Parsed, and its host project exists.
    Healthy,
    /// Orphaned: its host project directory is missing.
    Warn,
    /// Corrupted or missing: empty, unreadable or not JSON.
    Error,
    /// An anomaly: abnormally large, or updated in the future.
    Risk,
}

impl Default for SessionHealth {
    fn default() -> (r: SessionHealth)
        ensures
            r == SessionHealth::Unknown,
    {
        SessionHealth::Unknown
    }
}

/// The label a health is shown with.
pub open spec fn spec_health_label(h: SessionHealth) -> Seq<char> {
    match h {
        SessionHealth::Unknown => "UNKNOWN"@,
        SessionHealth::Healthy => "OK"@,
        SessionHealth::Warn => "WARN"@,
        SessionHealth::Error => "ERROR"@,
        SessionHealth::Risk => "RISK"@,
    }
}

impl SessionHealth {
    /// The text shown for the health: UNKNOWN, OK, WARN, ERROR or RISK.
    pub fn label(&self) -> (r: &'static str)
        ensures
            r@ == spec_health_label(*self),
    {
        match self {
            SessionHealth::Unknown => "UNKNOWN",
            SessionHealth::Healthy => "OK",
            SessionHealth::Warn => "WARN",
            SessionHealth::Error => "ERROR",
            SessionHealth::Risk => "RISK",
        }
    }
}

/// One Gemini conversation file.
#[derive(Debug)]
pub struct Session {
    /// The file name.
    pub id: String,
    /// The short id shown in lists: the last `-`-separated part of the file name
    /// without `.json`.
    pub display_id: String,
    /// The project directory the file lies in.
    pub project_id: String,
    /// The host project the Gemini project belongs to, if recorded.
    pub host_path: Option<String>,
    /// The first line of the first user message, once known.
    pub name: Option<String>,
    /// The path of the file.
    pub path: String,
    pub created_at: Timestamp,
    pub updated_at: Timestamp,
    /// The file size in bytes.
    pub size: u64,
    pub health: SessionHealth,
    pub validation_notes: Vec<String>,
}

/// `s` without a trailing `.json`.
pub open spec fn strip_json_suffix(s: Seq<char>) -> Seq<char> {
    if s.len() >= 5 && s.subrange(s.len() - 5, s.len() as int) == ".json"@ {
        s.subrange(0, s.len() - 5)
    } else {
        s
    }
}

/// The short id of a session file name:
/// `session-2026-03-08T12-00-abcdef01.json` gives `abcdef01`.
pub open spec fn spec_display_id(id: Seq<char>) -> Seq<char> {
    let stem = strip_json_suffix(id);
    stem.subrange(last_index_of(stem, '-') + 1, stem.len() as int)
}

/// The short id of a file name `p-d.json`, where `d` holds no `-`, is `d`: the
/// part after the last `-`, without the `.json`.
pub proof fn lemma_display_id_is_last_part(p: Seq<char>, d: Seq<char>)
    requires
        !d.contains('-'),
    ensures
        spec_display_id(p + "-"@ + d + ".json"@) == d,
{
    reveal_strlit("-");
    reveal_strlit(".json");
    let id = p + "-"@ + d + ".json"@;
    let stem = p + "-"@ + d;
    assert(id.subrange(id.len() - 5, id.len() as int) =~= ".json"@);
    assert(id.subrange(0, id.len() - 5) =~= stem);
    assert(strip_json_suffix(id) == stem);
    lemma_last_index_of(stem, '-');
    let k = last_index_of(stem, '-');
    assert(stem[p.len() as int] == '-');
    assert forall|j: int| p.len() < j < stem.len() implies stem[j] != '-' by {
        assert(stem[j] == d[j - p.len() - 1]);
    }
    assert(k == p.len());
    assert(stem.subrange(k + 1, stem.len() as int) =~= d);
}

/// Computes the short id of a session file name.
pub fn display_id_of(id: &str) -> (r: String)
    ensures
        r@ == spec_display_id(id@),
{
    proof { reveal_strlit(".json"); }
    let v = chars_of(id);
    let n = v.len();
    let mut end = n;
    if n >= 5 && v[n - 5] == '.' && v[n - 4] == 'j' && v[n - 3] == 's' && v[n - 2] == 'o' && v[n - 1] == 'n' {
        end = n - 5;
        assert(id@.subrange(n - 5, n as int) =~= ".json"@);
    } else {
        assert(!(n >= 5 && id@.subrange(n - 5, n as int) == ".json"@)) by {
            if n >= 5 && id@.subrange(n - 5, n as int) == ".json"@ {
                assert(id@.subrange(n - 5, n as int)[0] == '.');
                assert(id@.subrange(n - 5, n as int)[1] == 'j');
                assert(id@.subrange(n - 5, n as int)[2] == 's');
                assert(id@.subrange(n - 5, n as int)[3] == 'o');
                assert(id@.subrange(n - 5, n as int)[4] == 'n');
            }
        }
    }
    let stem_v: Vec<char> = chars_of(string_from_chars(v.as_slice(), 0, end).as_str());
    assert(stem_v@ == strip_json_suffix(id@));
    let start = match rfind_char(&stem_v, '-') {
        Some(i) => i + 1,
        None => 0,
    };
    string_from_chars(stem_v.as_slice(), start, stem_v.len())
}

/// The first line of a text, as `str::lines().next().unwrap_or("")` gives it: the
/// text up to the first line feed, without a carriage return right before it.
pub open spec fn spec_first_line(c: Seq<char>) -> Seq<char> {
    let k = first_index_of(c, '\n');
    if k < 0 {
        c
    } else if k > 0 && c[k - 1] == '\r' {
        c.take(k - 1)
    } else {
        c.take(k)
    }
}

/// At most the first `n` characters of `s`.
pub open spec fn take_at_most(s: Seq<char>, n: nat) -> Seq<char> {
    if s.len() <= n { s } else { s.take(n as int) }
}

/// The string content of a message of type `user`, if it is a string.
pub open spec fn spec_user_text(m: JsonView) -> Option<Seq<char>> {
    if json_as_str(json_get(m, "type"@)) == Some("user"@) {
        json_as_str(json_get(m, "content"@))
    } else {
        None
    }
}

/// Reads the string content of a user message.
pub fn user_text(m: &JsonValue) -> (r: Option<&str>)
    ensures
        opt_str_view(r) == spec_user_text(m@),
{
    let is_user = match m.get("type") {
        Some(t) => match t.as_str() {
            Some(ts) => str_eq(ts, "user"),
            None => false,
        },
        None => false,
    };
    if !is_user {
        return None;
    }
    match m.get("content") {
        Some(cv) => cv.as_str(),
        None => None,
    }
}

/// The string content of the first message of type `user` whose content is a string.
pub open spec fn spec_first_user_text(msgs: Seq<JsonView>) -> Option<Seq<char>>
    decreases msgs.len(),
{
    if msgs.len() == 0 {
        None
    } else {
        match spec_user_text(msgs[0]) {
            Some(c) => Some(c),
            None => spec_first_user_text(msgs.drop_first()),
        }
    }
}

/// The title a conversation gets: the first line of its first user message, cut
/// to 50 characters.
pub open spec fn spec_conversation_title(doc: JsonView) -> Option<Seq<char>> {
    match json_as_array(json_get(doc, "messages"@)) {
        Some(msgs) => spec_title_from(msgs),
        None => None,
    }
}

/// The title taken from a list of messages.
pub open spec fn spec_title_from(msgs: Seq<JsonView>) -> Option<Seq<char>> {
    match spec_first_user_text(msgs) {
        Some(c) => Some(take_at_most(spec_first_line(c), 50)),
        None => None,
    }
}

/// The user text the title is taken from is that of the earliest message with
/// user text: where message `k` has user text `c` and none before it has any,
/// it is `c`, whatever the later messages hold.
pub proof fn lemma_first_user_text_is_earliest(msgs: Seq<JsonView>, k: int, c: Seq<char>)
    requires
        0 <= k < msgs.len(),
        spec_user_text(msgs[k]) == Some(c),
        forall|j: int| 0 <= j < k ==> spec_user_text(#[trigger] msgs[j]) is None,
    ensures
        spec_first_user_text(msgs) == Some(c),
    decreases k,
{
    if k > 0 {
        let rest = msgs.drop_first();
        assert(spec_user_text(msgs[0]) is None);
        assert forall|j: int| 0 <= j < k - 1 implies spec_user_text(#[trigger] rest[j]) is None by {
            assert(rest[j] == msgs[j + 1]);
        }
        assert(rest[k - 1] == msgs[k]);
        lemma_first_user_text_is_earliest(rest, k - 1, c);
    }
}

/// Without any message with user text there is no title.
pub proof fn lemma_no_user_text_no_title(msgs: Seq<JsonView>)
    requires
        forall|j: int| 0 <= j < msgs.len() ==> spec_user_text(#[trigger] msgs[j]) is None,
    ensures
        spec_first_user_text(msgs) is None,
        spec_title_from(msgs) is None,
    decreases msgs.len(),
{
    if msgs.len() > 0 {
        let rest = msgs.drop_first();
        assert(spec_user_text(msgs[0]) is None);
        assert forall|j: int| 0 <= j < rest.len() implies spec_user_text(#[trigger] rest[j]) is None by {
            assert(rest[j] == msgs[j + 1]);
        }
        lemma_no_user_text_no_title(rest);
    }
}

/// The title of a conversation is the first line of its earliest user message,
/// cut to 50 characters: where message `k` is the first with user text `c`, the
/// title is a prefix of `c` of at most 50 characters holding no line feed, and
/// where it is shorter than 50 characters it is the whole first line: `c` ends
/// there, or a line feed (or a carriage return and a line feed) follows.
pub proof fn lemma_title_is_first_line_of_earliest_user_text(msgs: Seq<JsonView>, k: int, c: Seq<char>)
    requires
        0 <= k < msgs.len(),
        spec_user_text(msgs[k]) == Some(c),
        forall|j: int| 0 <= j < k ==> spec_user_text(#[trigger] msgs[j]) is None,
    ensures
        spec_title_from(msgs) matches Some(t) && {
            &&& t.len() <= 50
            &&& t.len() <= c.len()
            &&& t == c.take(t.len() as int)
            &&& forall|i: int| 0 <= i < t.len() ==> t[i] != '\n'
            &&& t.len() < 50 ==> (t.len() == c.len() || c[t.len() as int] == '\n' || (c[t.len() as int] == '\r'
                && t.len() + 1 < c.len() && c[t.len() + 1int] == '\n'))
        },
{
    lemma_first_user_text_is_earliest(msgs, k, c);
    lemma_first_index_of(c, '\n');
    let l = spec_first_line(c);
    let t = take_at_most(l, 50);
    assert(l == c.take(l.len() as int));
    assert(t == c.take(t.len() as int));
    assert forall|i: int| 0 <= i < t.len() implies t[i] != '\n' by {
        assert(t[i] == c[i]);
    }
}

/// A session larger than this many bytes is a risk.
pub const LARGE_SESSION_BYTES: u64 = 52428800;

/// Whether `updated` lies more than an hour after `now`.
pub open spec fn more_than_hour_after(updated: Timestamp, now: Timestamp) -> bool {
    updated.secs > now.secs + 3600 || (updated.secs == now.secs + 3600 && updated.nanos > now.nanos)
}

/// Whether validation reads the clock: the file is not empty, could be read and
/// holds JSON.
pub open spec fn validation_reaches_clock(size: u64, content: Option<Seq<char>>) -> bool {
    size != 0 && content is Some && json_parse(content->0) is Some
}

/// The health and notes that validation gives a session of `size` bytes whose
/// health was `health`, with host project `host` and update time `updated`, given
/// the file's text (`None` if unreadable), whether the host exists, and the time.
pub open spec fn spec_validation(
    size: u64,
    health: SessionHealth,
    host: Option<Seq<char>>,
    updated: Timestamp,
    content: Option<Seq<char>>,
    host_exists: bool,
    now: Timestamp,
) -> (SessionHealth, Seq<Seq<char>>) {
    if size == 0 {
        (SessionHealth::Error, seq!["File is empty"@])
    } else if content is None {
        (SessionHealth::Error, seq!["Unreadable file"@])
    } else if json_parse(content->0) is None {
        (SessionHealth::Error, seq!["Invalid JSON structure"@])
    } else {
        let (h1, n1) = match host {
            Some(_) => if host_exists {
                (SessionHealth::Healthy, Seq::<Seq<char>>::empty())
            } else {
                (SessionHealth::Warn, seq!["Host project path missing"@])
            },
            None => (health, Seq::<Seq<char>>::empty()),
        };
        let (h2, n2) = if size > LARGE_SESSION_BYTES {
            (SessionHealth::Risk, n1.push("Extremely large session (>50MB)"@))
        } else {
            (h1, n1)
        };
        if more_than_hour_after(updated, now) {
            (SessionHealth::Risk, n2.push("Temporal anomaly: future update time"@))
        } else {
            (h2, n2)
        }
    }
}

/// The outcomes of validation follow the security model: an empty, unreadable
/// or unparsable file is an error; a parsable one that is over 50 MB or updated
/// more than an hour in the future is a risk; otherwise a recorded host project
/// that is missing makes a warning and one that exists makes it healthy, and
/// without one the earlier health stays. An error or a risk comes with a note
/// saying why, unless it is an earlier health kept.
pub proof fn lemma_validation_outcomes(
    size: u64,
    health: SessionHealth,
    host: Option<Seq<char>>,
    updated: Timestamp,
    content: Option<Seq<char>>,
    host_exists: bool,
    now: Timestamp,
)
    ensures
        ({
            let (h, notes) = spec_validation(size, health, host, updated, content, host_exists, now);
            let readable = size != 0 && content is Some && json_parse(content->0) is Some;
            &&& !readable ==> h == SessionHealth::Error
            &&& readable && (size > LARGE_SESSION_BYTES || more_than_hour_after(updated, now)) ==> h == SessionHealth::Risk
            &&& readable && size <= LARGE_SESSION_BYTES && !more_than_hour_after(updated, now) && host is Some
                ==> h == (if host_exists { SessionHealth::Healthy } else { SessionHealth::Warn })
            &&& readable && size <= LARGE_SESSION_BYTES && !more_than_hour_after(updated, now) && host is None
                ==> h == health
            &&& (h == SessionHealth::Error || h == SessionHealth::Risk) && notes.len() == 0 ==> h == health && host is None
        }),
{
}

/// The name a session has after validation.
pub open spec fn spec_validated_name(name: Option<Seq<char>>, size: u64, content: Option<Seq<char>>) -> Option<Seq<char>> {
    if size == 0 || content is None || json_parse(content->0) is None || name is Some {
        name
    } else {
        spec_conversation_title(json_parse(content->0)->0)
    }
}

/// Validation names a session without a name after its conversation: for a
/// non-empty file whose JSON holds the message list `msgs`, the name becomes the
/// title taken from `msgs`; a session that has a name keeps it.
pub proof fn lemma_validated_name_is_title(
    name: Option<Seq<char>>,
    size: u64,
    text: Seq<char>,
    doc: JsonView,
    msgs: Seq<JsonView>,
)
    requires
        size != 0,
        json_parse(text) == Some(doc),
        json_as_array(json_get(doc, "messages"@)) == Some(msgs),
    ensures
        spec_validated_name(None, size, Some(text)) == spec_title_from(msgs),
        name is Some ==> spec_validated_name(name, size, Some(text)) == name,
{
}

/// The texts of a list of strings.
pub open spec fn views(v: Seq<String>) -> Seq<Seq<char>> {
    v.map_values(|s: String| s@)
}

/// Computes the first line of `c`.
pub fn first_line(c: &str) -> (r: String)
    ensures
        r@ == spec_first_line(c@),
{
    let v = chars_of(c);
    match find_char(&v, '\n') {
        None => c.to_owned(),
        Some(k) => {
            if k > 0 && v[k - 1] == '\r' {
                string_from_chars(v.as_slice(), 0, k - 1)
            } else {
                string_from_chars(v.as_slice(), 0, k)
            }
        },
    }
}

/// The title taken from a list of messages.
fn title_from(msgs: &Vec<JsonValue>) -> (r: Option<String>)
    ensures
        opt_string_view(r) == spec_title_from(msgs@.map_values(|x: JsonValue| x@)),
{
    let ghost mv = msgs@.map_values(|x: JsonValue| x@);
    let mut i: usize = 0;
    assert(mv.skip(0) =~= mv);
    while i < msgs.len()
        invariant
            i <= msgs@.len(),
            mv == msgs@.map_values(|x: JsonValue| x@),
            spec_first_user_text(mv) == spec_first_user_text(mv.skip(i as int)),
        decreases msgs.len() - i,
    {
        let m = &msgs[i];
        assert(mv.skip(i as int)[0] == m@);
        assert(mv.skip(i as int).drop_first() =~= mv.skip(i + 1));
        match user_text(m) {
            Some(c) => {
                let line = first_line(c);
                let lv = chars_of(line.as_str());
                if lv.len() <= 50 {
                    return Some(line);
                }
                return Some(string_from_chars(lv.as_slice(), 0, 50));
            },
            None => {},
        }
        i += 1;
    }
    assert(mv.skip(i as int) =~= Seq::<JsonView>::empty());
    None
}

/// The title of a parsed conversation, if it has one.
pub fn conversation_title(doc: &JsonValue) -> (r: Option<String>)
    ensures
        opt_string_view(r) == spec_conversation_title(doc@),
{
    match doc.get("messages") {
        Some(m) => match m.as_array() {
            Some(a) => title_from(a),
            None => None,
        },
        None => None,
    }
}

impl Session {
    /// A newly found session file: `file_name` is the file's name where it has one
    /// in UTF-8, `modified` its modification time and `size` its length.
    pub fn from_path(
        path: &str,
        file_name: Option<&str>,
        project_id: String,
        host_path: Option<String>,
        modified: Timestamp,
        size: u64,
    ) -> (s: Session)
        ensures
            s.id@ == (match file_name { Some(n) => n@, None => "unknown"@ }),
            s.display_id@ == spec_display_id(s.id@),
            s.project_id == project_id,
            s.host_path == host_path,
            s.name is None,
            s.path@ == path@,
            s.created_at == modified,
            s.updated_at == modified,
            s.size == size,
            s.health == SessionHealth::Unknown,
            s.validation_notes@.len() == 0,
    {
        let id = match file_name {
            Some(n) => n.to_owned(),
            None => String::from_str("unknown"),
        };
        let display_id = display_id_of(id.as_str());
        Session {
            id,
            display_id,
            project_id,
            host_path,
            name: None,
            path: path.to_owned(),
            created_at: modified,
            updated_at: modified,
            size,
            health: SessionHealth::Unknown,
            validation_notes: Vec::new(),
        }
    }

    /// Validates the session against its file's text (`None` where it could not be
    /// read), whether its host project exists, and the time `now`: sets the
    /// health, the notes and, where it had none, the name.
    pub fn deep_validate_at(&mut self, content: Option<&str>, host_exists: bool, now: Timestamp)
        requires
            validation_reaches_clock(old(self).size, opt_str_view(content)) ==> now.secs + 3600 <= MAX_UTC_SECS,
        ensures
            (final(self).health, views(final(self).validation_notes@)) == spec_validation(
                old(self).size,
                old(self).health,
                opt_string_view(old(self).host_path),
                old(self).updated_at,
                opt_str_view(content),
                host_exists,
                now,
            ),
            opt_string_view(final(self).name) == spec_validated_name(
                opt_string_view(old(self).name),
                old(self).size,
                opt_str_view(content),
            ),
            final(self).id == old(self).id,
            final(self).display_id == old(self).display_id,
            final(self).project_id == old(self).project_id,
            final(self).host_path == old(self).host_path,
            final(self).path == old(self).path,
            final(self).created_at == old(self).created_at,
            final(self).updated_at == old(self).updated_at,
            final(self).size == old(self).size,
    {
        self.validation_notes.clear();
        if self.size == 0 {
            self.health = SessionHealth::Error;
            self.validation_notes.push(String::from_str("File is empty"));
            assert(views(self.validation_notes@) =~= seq!["File is empty"@]);
            return;
        }
        let text = match content {
            Some(t) => t,
            None => {
                self.health = SessionHealth::Error;
                self.validation_notes.push(String::from_str("Unreadable file"));
                assert(views(self.validation_notes@) =~= seq!["Unreadable file"@]);
                return;
            },
        };
        let doc = match parse_json(text) {
            Ok(d) => d,
            Err(_) => {
                self.health = SessionHealth::Error;
                self.validation_notes.push(String::from_str("Invalid JSON structure"));
                assert(views(self.validation_notes@) =~= seq!["Invalid JSON structure"@]);
                return;
            },
        };
        if self.name.is_none() {
            self.name = conversation_title(&doc);
        }
        match &self.host_path {
            Some(_) => {
                if host_exists {
                    self.health = SessionHealth::Healthy;
                } else {
                    self.health = SessionHealth::Warn;
                    self.validation_notes.push(String::from_str("Host project path missing"));
                }
            },
            None => {},
        }
        if self.size > LARGE_SESSION_BYTES {
            self.health = SessionHealth::Risk;
            self.validation_notes.push(String::from_str("Extremely large session (>50MB)"));
        }
        let limit = Timestamp { secs: now.secs + 3600, nanos: now.nanos };
        if limit.is_before(&self.updated_at) {
            self.health = SessionHealth::Risk;
            self.validation_notes.push(String::from_str("Temporal anomaly: future update time"));
        }
        assert(views(self.validation_notes@) =~= spec_validation(
            old(self).size,
            old(self).health,
            opt_string_view(old(self).host_path),
            old(self).updated_at,
            opt_str_view(content),
            host_exists,
            now,
        ).1);
    }

    /// Validates the session at the time `now` where that can be done: returns
    /// `true` and validates as [`Session::deep_validate_at`] does exactly where
    /// validation does not reach the clock or `now` stands at least an hour
    /// before the end of chrono's range (else chrono's `now + 1 hour` fails);
    /// otherwise returns `false` and leaves the session as it was.
    pub fn deep_validate_checked_at(&mut self, content: Option<&str>, host_exists: bool, now: Timestamp) -> (done: bool)
        ensures
            done == (!validation_reaches_clock(old(self).size, opt_str_view(content)) || now.secs + 3600 <= MAX_UTC_SECS),
            done ==> (final(self).health, views(final(self).validation_notes@)) == spec_validation(
                old(self).size,
                old(self).health,
                opt_string_view(old(self).host_path),
                old(self).updated_at,
                opt_str_view(content),
                host_exists,
                now,
            ),
            done ==> opt_string_view(final(self).name) == spec_validated_name(
                opt_string_view(old(self).name),
                old(self).size,
                opt_str_view(content),
            ),
            !done ==> *final(self) == *old(self),
            final(self).id == old(self).id,
            final(self).path == old(self).path,
            final(self).updated_at == old(self).updated_at,
            final(self).host_path == old(self).host_path,
            final(self).size == old(self).size,
    {
        let reaches = self.size != 0 && match content {
            Some(c) => parse_json(c).is_ok(),
            None => false,
        };
        if reaches && now.secs > MAX_UTC_SECS - 3600 {
            return false;
        }
        self.deep_validate_at(content, host_exists, now);
        true
    }

    /// Validates the session at the current time: what
    /// [`Session::deep_validate_checked_at`] does at the time the clock reads, or,
    /// where validation does not reach the clock, at any time. Returns `false`,
    /// and leaves the session as it was, only where validation would read the
    /// clock and the clock cannot be read or stands within an hour of the end of
    /// chrono's range. Which instant is used depends on the clock.
    pub fn deep_validate(&mut self, content: Option<&str>, host_exists: bool) -> (done: bool)
        ensures
            done ==> exists|t: Timestamp|
                (final(self).health, views(final(self).validation_notes@)) == spec_validation(
                    old(self).size,
                    old(self).health,
                    opt_string_view(old(self).host_path),
                    old(self).updated_at,
                    opt_str_view(content),
                    host_exists,
                    t,
                ),
            done ==> opt_string_view(final(self).name) == spec_validated_name(
                opt_string_view(old(self).name),
                old(self).size,
                opt_str_view(content),
            ),
            !done ==> *final(self) == *old(self),
            !done ==> validation_reaches_clock(old(self).size, opt_str_view(content)),
            !validation_reaches_clock(old(self).size, opt_str_view(content)) ==> done,
            final(self).id == old(self).id,
            final(self).path == old(self).path,
            final(self).updated_at == old(self).updated_at,
            final(self).host_path == old(self).host_path,
            final(self).size == old(self).size,
    {
        let reaches = self.size != 0 && match content {
            Some(c) => parse_json(c).is_ok(),
            None => false,
        };
        if !reaches {
            return self.deep_validate_checked_at(content, host_exists, Timestamp { secs: 0, nanos: 0 });
        }
        match now() {
            Some(t) => self.deep_validate_checked_at(content, host_exists, t),
            None => false,
        }
    }
}

} // verus!
