use vstd::prelude::*;
use crate::utils::text::{chars_of, rfind_char, last_index_of, trim, spec_trim, string_from_chars};

verus! {

/// Where session files are looked for: `<base>/<project>/chats/*.json`.
pub struct Scanner {
    pub base_path: String,
}

/// The extension of a file name as `Path::extension` gives it: what follows the
/// last `.`, unless that dot is the name's first character.
pub open spec fn spec_extension(name: Seq<char>) -> Option<Seq<char>> {
    let d = last_index_of(name, '.');
    if d > 0 { Some(name.subrange(d + 1, name.len() as int)) } else { None }
}

/// Whether a file name marks a session file: its extension is `json`.
pub open spec fn spec_is_session_file(name: Seq<char>) -> bool {
    spec_extension(name) == Some("json"@)
}

/// The host project path recorded in a `.project_root` file's text.
pub open spec fn spec_host_from_marker(text: Seq<char>) -> Seq<char> {
    spec_trim(text)
}

impl Scanner {
    /// A scanner of the sessions under `base_path`.
    pub fn new(base_path: &str) -> (r: Scanner)
        ensures
            r.base_path@ == base_path@,
    {
        Scanner { base_path: base_path.to_owned() }
    }

    /// Whether the file called `name` is a session file.
    pub fn is_session_file(name: &str) -> (r: bool)
        ensures
            r == spec_is_session_file(name@),
    {
        proof { reveal_strlit("json"); }
        let v = chars_of(name);
        match rfind_char(&v, '.') {
            Some(d) => {
                if d == 0 {
                    return false;
                }
                assert(v@.len() == v.len());
                let ext = string_from_chars(v.as_slice(), d + 1, v.len());
                let ev = chars_of(ext.as_str());
                let r = ev.len() == 4 && ev[0] == 'j' && ev[1] == 's' && ev[2] == 'o' && ev[3] == 'n';
                assert(r == (ev@ == "json"@)) by {
                    if ev@ == "json"@ {
                        assert(ev@[0] == 'j' && ev@[1] == 's' && ev@[2] == 'o' && ev@[3] == 'n');
                    }
                    if r {
                        assert(ev@ =~= "json"@);
                    }
                }
                r
            },
            None => false,
        }
    }

    /// The host project path that a `.project_root` file's text records.
    pub fn host_from_marker(text: &str) -> (r: String)
        ensures
            r@ == spec_host_from_marker(text@),
    {
        trim(text)
    }
}

} // verus!
