use vstd::prelude::*;
use crate::utils::text::{starts_with, spec_starts_with, chars_of, string_from_chars, opt_str_view};

verus! {

/// `base` with `name` appended as a path component, as `PathBuf::push` does on Unix:
/// an absolute `name` replaces the base; otherwise a separator is inserted unless
/// the base is empty or already ends with one.
pub open spec fn spec_join_path(base: Seq<char>, name: Seq<char>) -> Seq<char> {
    if name.len() > 0 && name[0] == '/' {
        name
    } else if base.len() == 0 || base.last() == '/' {
        base + name
    } else {
        base + seq!['/'] + name
    }
}

/// Appends `name` to `base` as a path component.
pub fn join_path(base: &str, name: &str) -> (r: String)
    ensures
        r@ == spec_join_path(base@, name@),
{
    let nb = base.unicode_len();
    let nn = name.unicode_len();
    if nn > 0 && name.get_char(0) == '/' {
        return name.to_owned();
    }
    let mut r = base.to_owned();
    if !(nb == 0 || base.get_char(nb - 1) == '/') {
        r.append("/");
        proof { reveal_strlit("/"); }
    }
    r.append(name);
    r
}

/// A path as the user sees it: a path under `home` has that prefix shown as `~`.
pub open spec fn spec_format_host(path: Seq<char>, home: Option<Seq<char>>) -> Seq<char> {
    match home {
        Some(h) => if spec_starts_with(path, h) {
            seq!['~'] + path.skip(h.len() as int)
        } else {
            path
        },
        None => path,
    }
}

/// Shortens `path` for display by writing the home directory prefix as `~`.
pub fn format_host(path: &str, home: Option<&str>) -> (r: String)
    ensures
        r@ == spec_format_host(path@, opt_str_view(home)),
{
    match home {
        Some(h) => {
            if starts_with(path, h) {
                let pv = chars_of(path);
                let hv = chars_of(h);
                let mut r = String::new();
                r.append("~");
                proof { reveal_strlit("~"); }
                let rest = string_from_chars(pv.as_slice(), hv.len(), pv.len());
                r.append(rest.as_str());
                assert(r@ =~= seq!['~'] + path@.skip(h@.len() as int));
                r
            } else {
                path.to_owned()
            }
        },
        None => path.to_owned(),
    }
}

} // verus!
