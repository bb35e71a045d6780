use vstd::prelude::*;
use crate::error::CastorError;
use crate::model::session::{Session, views};
use crate::utils::json::{JsonValue, JsonView, json_get, json_as_str, json_as_array, json_parse, parse_json};
use crate::utils::text::{is_blank, all_white_space, str_eq, to_uppercase, uppercase, last_index_of, is_ascii_text, lemma_ascii_uppered_fixed};

verus! {

/// What is appended when a preview stops at its message limit.
pub open spec fn limit_notice() -> Seq<char> {
    "\n\n-- [ Preview limited to first few messages ] --"@
}

/// The heading a message role is shown under: `user` as `USER`, `assistant` as
/// `GEMINI`, any other role upper-cased.
pub open spec fn spec_role_label(role: Seq<char>) -> Seq<char> {
    uppercase(
        if role == "user"@ {
            "USER"@
        } else if role == "assistant"@ {
            "GEMINI"@
        } else {
            role
        },
    )
}

/// The heading a message role is shown under: `user` as `USER`, `assistant` as
/// `GEMINI`, any other role upper-cased.
pub fn role_label(role: &str) -> (r: String)
    ensures
        r@ == spec_role_label(role@),
        role@ == "user"@ ==> r@ == "USER"@,
        role@ == "assistant"@ ==> r@ == "GEMINI"@,
{
    let mapped: &str = if str_eq(role, "user") {
        "USER"
    } else if str_eq(role, "assistant") {
        "GEMINI"
    } else {
        role
    };
    let r = to_uppercase(mapped);
    proof {
        reveal_strlit("user");
        reveal_strlit("assistant");
        reveal_strlit("USER");
        reveal_strlit("GEMINI");
        assert("user"@.len() == 4 && "assistant"@.len() == 9);
        assert("user"@ != "assistant"@);
        assert(role@ == "assistant"@ ==> mapped@ == "GEMINI"@);
        if mapped@ == "USER"@ || mapped@ == "GEMINI"@ {
            assert(is_ascii_text(mapped@));
            lemma_ascii_uppered_fixed(mapped@, r@);
        }
    }
    r
}

/// The non-blank `text` members of the items of an array content.
pub open spec fn spec_item_texts(items: Seq<JsonView>) -> Seq<Seq<char>>
    decreases items.len(),
{
    if items.len() == 0 {
        Seq::empty()
    } else {
        let rest = spec_item_texts(items.drop_last());
        match json_as_str(json_get(items.last(), "text"@)) {
            Some(t) => if all_white_space(t) { rest } else { rest.push(t) },
            None => rest,
        }
    }
}

/// The non-blank texts of a message content: a string, or an array of items
/// with `text` members.
pub open spec fn spec_text_parts(content: Option<JsonView>) -> Seq<Seq<char>> {
    match content {
        Some(JsonView::Str(t)) => if all_white_space(t) { Seq::empty() } else { seq![t] },
        Some(JsonView::Array(items)) => spec_item_texts(items),
        _ => Seq::empty(),
    }
}

/// `parts` joined with `sep` between neighbours (`[String]::join`).
pub open spec fn spec_join(parts: Seq<Seq<char>>, sep: Seq<char>) -> Seq<char>
    decreases parts.len(),
{
    if parts.len() == 0 {
        Seq::empty()
    } else if parts.len() == 1 {
        parts[0]
    } else {
        spec_join(parts.drop_last(), sep) + sep + parts.last()
    }
}

/// The state of a markdown rendering: the text so far, the last heading written,
/// the number of messages rendered, and whether the limit stopped it.
pub type MdState = (Seq<char>, Seq<char>, nat, bool);

/// Renders one message onto the state. A message with no text is skipped
/// without counting; a message under the same heading as the previous one is
/// appended without a new heading.
#[verifier::opaque]
pub open spec fn spec_md_step(st: MdState, msg: JsonView, limit: nat) -> MdState {
    if st.3 {
        st
    } else if st.2 >= limit {
        (st.0 + limit_notice(), st.1, st.2, true)
    } else {
        let role = match json_as_str(json_get(msg, "type"@)) {
            Some(r) => r,
            None => "unknown"@,
        };
        let label = spec_role_label(role);
        let parts = spec_text_parts(json_get(msg, "content"@));
        if parts.len() == 0 {
            st
        } else {
            let joined = spec_join(parts, "\n\n"@);
            if label == st.1 {
                (st.0 + joined + "\n\n"@, st.1, st.2 + 1, false)
            } else {
                (st.0 + "## "@ + label + "\n"@ + joined + "\n\n"@, label, st.2 + 1, false)
            }
        }
    }
}

/// Renders the messages in order.
pub open spec fn spec_md_fold(msgs: Seq<JsonView>, limit: nat) -> MdState
    decreases msgs.len(),
{
    if msgs.len() == 0 {
        (Seq::empty(), Seq::empty(), 0, false)
    } else {
        spec_md_step(spec_md_fold(msgs.drop_last(), limit), msgs.last(), limit)
    }
}

/// What one step does to the count and the stop flag: a stopped rendering stays
/// as it is; one at its limit stops; one below it counts at most one more
/// message, and does the same under any limit above its count.
proof fn lemma_md_step_facts(st: MdState, msg: JsonView, limit: nat, other: nat)
    ensures
        st.3 ==> spec_md_step(st, msg, limit) == st,
        !st.3 && st.2 >= limit ==> spec_md_step(st, msg, limit).3 && spec_md_step(st, msg, limit).2 == st.2,
        !st.3 && st.2 < limit ==> !spec_md_step(st, msg, limit).3 && spec_md_step(st, msg, limit).2 <= st.2 + 1,
        !st.3 && st.2 < limit && st.2 < other ==> spec_md_step(st, msg, limit) == spec_md_step(st, msg, other),
{
    reveal(spec_md_step);
}

/// A rendering never counts more messages than its limit.
pub proof fn lemma_md_fold_within_limit(msgs: Seq<JsonView>, limit: nat)
    ensures
        spec_md_fold(msgs, limit).2 <= limit,
    decreases msgs.len(),
{
    if msgs.len() > 0 {
        lemma_md_fold_within_limit(msgs.drop_last(), limit);
        lemma_md_step_facts(spec_md_fold(msgs.drop_last(), limit), msgs.last(), limit, limit);
    }
}

/// A preview agrees with the full rendering until its limit stops it: where a
/// rendering with limit `small` did not stop, any larger limit renders the same.
pub proof fn lemma_preview_matches_export(msgs: Seq<JsonView>, small: nat, large: nat)
    requires
        small <= large,
        !spec_md_fold(msgs, small).3,
    ensures
        spec_md_fold(msgs, small) == spec_md_fold(msgs, large),
    decreases msgs.len(),
{
    if msgs.len() > 0 {
        let front = msgs.drop_last();
        let st = spec_md_fold(front, small);
        lemma_md_step_facts(st, msgs.last(), small, large);
        lemma_preview_matches_export(front, small, large);
    }
}

/// The markdown of a conversation document, rendering at most `limit` messages
/// that have text; a document without a `messages` array renders as nothing.
pub open spec fn spec_markdown(doc: JsonView, limit: nat) -> Seq<char> {
    match json_as_array(json_get(doc, "messages"@)) {
        Some(msgs) => spec_md_fold(msgs, limit).0,
        None => Seq::empty(),
    }
}

/// The view of an optional JSON node.
pub open spec fn opt_json_view(o: Option<&JsonValue>) -> Option<JsonView> {
    match o {
        Some(v) => Some(v@),
        None => None,
    }
}

/// The non-blank texts of a message content.
pub fn text_parts(content: Option<&JsonValue>) -> (r: Vec<String>)
    ensures
        views(r@) == spec_text_parts(opt_json_view(content)),
{
    let mut r: Vec<String> = Vec::new();
    match content {
        Some(JsonValue::Str(t)) => {
            if !is_blank(t.as_str()) {
                r.push(t.clone());
            }
            assert(views(r@) =~= spec_text_parts(opt_json_view(content)));
            r
        },
        Some(JsonValue::Array(items)) => {
            let ghost iv = items@.map_values(|x: JsonValue| x@);
            assert(opt_json_view(content) == Some(JsonView::Array(iv))) by {
                assert(iv =~= content.unwrap()@->Array_0);
            }
            let mut i: usize = 0;
            while i < items.len()
                invariant
                    i <= items@.len(),
                    iv == items@.map_values(|x: JsonValue| x@),
                    views(r@) == spec_item_texts(iv.take(i as int)),
                decreases items.len() - i,
            {
                assert(iv.take(i + 1).drop_last() =~= iv.take(i as int));
                let t = match items[i].get("text") {
                    Some(tv) => tv.as_str(),
                    None => None,
                };
                match t {
                    Some(ts) => {
                        if !is_blank(ts) {
                            r.push(ts.to_owned());
                        }
                    },
                    None => {},
                }
                assert(views(r@) =~= spec_item_texts(iv.take(i + 1)));
                i += 1;
            }
            assert(iv.take(i as int) =~= iv);
            r
        },
        _ => {
            assert(views(r@) =~= spec_text_parts(opt_json_view(content)));
            r
        },
    }
}

/// Joins `parts` with `sep` between neighbours.
pub fn join_parts(parts: &Vec<String>, sep: &str) -> (r: String)
    ensures
        r@ == spec_join(views(parts@), sep@),
{
    let mut r = String::new();
    let mut i: usize = 0;
    while i < parts.len()
        invariant
            i <= parts@.len(),
            r@ == spec_join(views(parts@.take(i as int)), sep@),
        decreases parts.len() - i,
    {
        assert(views(parts@.take(i + 1)).drop_last() =~= views(parts@.take(i as int)));
        if i > 0 {
            r.append(sep);
        }
        r.append(parts[i].as_str());
        i += 1;
    }
    assert(parts@.take(i as int) =~= parts@);
    r
}

/// Renders the messages of a conversation document as markdown, at most `limit`
/// of those that have text.
pub fn render_markdown(doc: &JsonValue, limit: usize) -> (r: String)
    ensures
        r@ == spec_markdown(doc@, limit as nat),
{
    let msgs = match doc.get("messages") {
        Some(m) => match m.as_array() {
            Some(a) => a,
            None => return String::new(),
        },
        None => return String::new(),
    };
    render_messages(msgs, limit)
}

/// Renders a list of messages as markdown.
fn render_messages(msgs: &Vec<JsonValue>, limit: usize) -> (r: String)
    ensures
        r@ == spec_md_fold(msgs@.map_values(|x: JsonValue| x@), limit as nat).0,
{
    let ghost mv = msgs@.map_values(|x: JsonValue| x@);
    let mut md = String::new();
    let mut last_role = String::new();
    let mut count: usize = 0;
    let mut stopped = false;
    let mut i: usize = 0;
    assert(mv.take(0) =~= Seq::<JsonView>::empty());
    while i < msgs.len()
        invariant
            i <= msgs@.len(),
            mv == msgs@.map_values(|x: JsonValue| x@),
            (md@, last_role@, count as nat, stopped) == spec_md_fold(mv.take(i as int), limit as nat),
        decreases msgs.len() - i,
    {
        assert(mv.take(i + 1).drop_last() =~= mv.take(i as int));
        assert(mv.take(i + 1).last() == msgs@[i as int]@);
        render_one(&msgs[i], &mut md, &mut last_role, &mut count, &mut stopped, limit);
        i += 1;
    }
    assert(mv.take(i as int) =~= mv);
    md
}

/// Renders one message onto the state.
fn render_one(
    msg: &JsonValue,
    md: &mut String,
    last_role: &mut String,
    count: &mut usize,
    stopped: &mut bool,
    limit: usize,
)
    ensures
        (final(md)@, final(last_role)@, *final(count) as nat, *final(stopped)) == spec_md_step(
            (old(md)@, old(last_role)@, *old(count) as nat, *old(stopped)),
            msg@,
            limit as nat,
        ),
{
    proof { reveal(spec_md_step); }
    if !*stopped {
        if *count >= limit {
            md.append("\n\n-- [ Preview limited to first few messages ] --");
            *stopped = true;
        } else {
            step_message(msg, md, last_role, count, limit);
        }
    }
}

/// Renders one message that is under the limit.
fn step_message(msg: &JsonValue, md: &mut String, last_role: &mut String, count: &mut usize, limit: usize)
    requires
        *old(count) < limit,
    ensures
        (final(md)@, final(last_role)@, *final(count) as nat, false) == spec_md_step(
            (old(md)@, old(last_role)@, *old(count) as nat, false),
            msg@,
            limit as nat,
        ),
{
    proof { reveal(spec_md_step); }
    let role: &str = match msg.get("type") {
        Some(t) => match t.as_str() {
            Some(r) => r,
            None => "unknown",
        },
        None => "unknown",
    };
    let label = role_label(role);
    let parts = text_parts(msg.get("content"));
    if parts.len() == 0 {
        return;
    }
    let joined = join_parts(&parts, "\n\n");
    *count = *count + 1;
    if str_eq(label.as_str(), last_role.as_str()) {
        md.append(joined.as_str());
        md.append("\n\n");
    } else {
        md.append("## ");
        md.append(label.as_str());
        md.append("\n");
        md.append(joined.as_str());
        md.append("\n\n");
        *last_role = label;
    }
}

/// The heading an exported session starts with.
pub open spec fn spec_export_header(id: Seq<char>) -> Seq<char> {
    "# Session: "@ + id + "\n\n"@
}

/// Renders a session file's text as markdown for a preview, rendering at most
/// `limit` messages that have text. Fails with a serialization error exactly
/// where the text is not JSON.
pub fn session_to_markdown_limited(content: &str, limit: usize) -> (r: Result<String, CastorError>)
    ensures
        r is Ok <==> json_parse(content@) is Some,
        r matches Ok(md) ==> md@ == spec_markdown(json_parse(content@)->0, limit as nat),
        r matches Err(e) ==> e is Serialization,
{
    match parse_json(content) {
        Ok(doc) => Ok(render_markdown(&doc, limit)),
        Err(e) => Err(CastorError::Serialization(e)),
    }
}

/// Renders a whole session as markdown: a `# Session:` heading with its id, then
/// every message.
pub fn session_to_markdown(session: &Session, content: &str) -> (r: Result<String, CastorError>)
    ensures
        r is Ok <==> json_parse(content@) is Some,
        r matches Ok(md) ==> md@ == spec_export_header(session.id@) + spec_markdown(
            json_parse(content@)->0,
            usize::MAX as nat,
        ),
        r matches Err(e) ==> e is Serialization,
{
    match session_to_markdown_limited(content, usize::MAX) {
        Ok(body) => {
            let mut md = String::from_str("# Session: ");
            md.append(session.id.as_str());
            md.append("\n\n");
            md.append(body.as_str());
            Ok(md)
        },
        Err(e) => Err(e),
    }
}

/// What `PathBuf::set_extension` makes of a path and an extension.
pub uninterp spec fn path_with_extension(path: Seq<char>, ext: Seq<char>) -> Seq<char>;

/// Whether `path` is a bare file name: no separator, and neither empty nor `.`
/// nor `..`, so that `Path::file_name` is the whole path.
pub open spec fn bare_file_name(path: Seq<char>) -> bool {
    !path.contains('/') && path.len() > 0 && path != "."@ && path != ".."@
}

/// The stem of a file name as `Path::file_stem` takes it: the whole name where
/// it holds no dot past its first character, else the part before the last dot.
pub open spec fn file_stem_of(name: Seq<char>) -> Seq<char> {
    let k = last_index_of(name, '.');
    if k <= 0 { name } else { name.take(k) }
}

/// `path` with its extension set to `ext`, through `PathBuf::set_extension`,
/// which refuses an extension holding a path separator. Trusted: the result is
/// the named result [`path_with_extension`]; for a bare file name and a
/// non-empty extension it is the name's stem, a dot and the extension, as the
/// documentation of `set_extension` and `file_stem` describes.
#[verifier::external_body]
pub(crate) fn with_extension(path: &str, ext: &str) -> (r: String)
    requires
        !ext@.contains('/'),
    ensures
        r@ == path_with_extension(path@, ext@),
        bare_file_name(path@) && ext@.len() > 0 ==> r@ == file_stem_of(path@) + "."@ + ext@,
{
    let mut p = std::path::PathBuf::from(path);
    p.set_extension(ext);
    p.to_string_lossy().into_owned()
}

/// Where a session is exported to: the given path, or its id with the
/// extension `md`.
pub open spec fn spec_export_path(id: Seq<char>, output: Option<Seq<char>>) -> Seq<char> {
    match output {
        Some(o) => o,
        None => path_with_extension(id, "md"@),
    }
}

/// Prepares the export of a session: the path to write and the markdown to write
/// there.
pub fn export_session(session: &Session, content: &str, output: Option<&str>) -> (r: Result<(String, String), CastorError>)
    ensures
        r is Ok <==> json_parse(content@) is Some,
        r matches Ok(p) ==> p.0@ == spec_export_path(session.id@, crate::utils::text::opt_str_view(output))
            && p.1@ == spec_export_header(session.id@) + spec_markdown(json_parse(content@)->0, usize::MAX as nat),
        output is None && bare_file_name(session.id@)
            ==> (r matches Ok(p) ==> p.0@ == file_stem_of(session.id@) + ".md"@),
        r matches Err(e) ==> e is Serialization,
{
    let markdown = match session_to_markdown(session, content) {
        Ok(m) => m,
        Err(e) => return Err(e),
    };
    let out_path = match output {
        Some(o) => o.to_owned(),
        None => {
            proof {
                reveal_strlit("md");
                reveal_strlit(".md");
                reveal_strlit(".");
                assert(!"md"@.contains('/'));
                assert("."@ + "md"@ =~= ".md"@);
            }
            let p = with_extension(session.id.as_str(), "md");
            assert(bare_file_name(session.id@) ==> p@ == file_stem_of(session.id@) + ".md"@);
            p
        },
    };
    Ok((out_path, markdown))
}

} // verus!
