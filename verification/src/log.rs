//! Where the program writes down what happened, and when the file rolls over.
//! Writing it is done outside the library.

use vstd::prelude::*;

use crate::store::opt_view;
use crate::text::{chars_of, join_path, path_join, string_of};

verus! {

/// Past this the log is rolled over. One previous file is kept, so a problem
/// that happened yesterday is still there and a week of them is not.
pub const LIMIT: u64 = 1048576;

/// `$XDG_STATE_HOME/lyricslens` when the variable holds an absolute path, or
/// `$HOME/.local/state/lyricslens`.
pub open spec fn state_dir(xdg_state_home: Option<Seq<char>>, home: Option<Seq<char>>) -> Option<Seq<char>> {
    match xdg_state_home {
        Some(v) if v.len() > 0 && v[0] == '/' => Some(path_join(v, "lyricslens"@)),
        _ => match home {
            Some(h) => Some(path_join(path_join(path_join(h, ".local"@), "state"@), "lyricslens"@)),
            None => None,
        },
    }
}

pub fn dir(xdg_state_home: Option<&str>, home: Option<&str>) -> (r: Option<String>)
    ensures
        match state_dir(opt_view(xdg_state_home), opt_view(home)) {
            Some(d) => r is Some && r->0@ == d,
            None => r is None,
        },
{
    let root = match xdg_state_home {
        Some(v) if v.unicode_len() > 0 && v.get_char(0) == '/' => chars_of(v),
        _ => match home {
            Some(h) => {
                let a = join_path(chars_of(h).as_slice(), ".local");
                join_path(a.as_slice(), "state")
            },
            None => return None,
        },
    };
    Some(string_of(join_path(root.as_slice(), "lyricslens").as_slice()))
}

/// The log file, `lyricslens.log` in that directory.
pub fn path(xdg_state_home: Option<&str>, home: Option<&str>) -> (r: Option<String>)
    ensures
        match state_dir(opt_view(xdg_state_home), opt_view(home)) {
            Some(d) => r is Some && r->0@ == path_join(d, "lyricslens.log"@),
            None => r is None,
        },
{
    match dir(xdg_state_home, home) {
        Some(d) => Some(string_of(join_path(chars_of(d.as_str()).as_slice(), "lyricslens.log").as_slice())),
        None => None,
    }
}

/// Whether the file has grown enough to start again before the next line.
pub fn rolls(written: u64) -> (r: bool)
    ensures
        r == (written >= LIMIT),
{
    written >= LIMIT
}

} // verus!
