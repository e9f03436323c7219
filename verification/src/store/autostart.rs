//! Starting with the session: a `.desktop` file in `~/.config/autostart/`.
//!
//! The state *is* the existence of that file, read from there rather than
//! kept in the settings. Here is where the file goes and what it says;
//! writing it is done outside the library.

use vstd::prelude::*;

use crate::store::{opt_view, xdg_dir};
use crate::text::{chars_of, extend, join_path, path_join, string_of};

verus! {

/// `<configuration root>/autostart/lyricslens.desktop`: the configuration
/// root is where `config_dir` puts the program's own folder.
pub open spec fn entry_path(xdg_config_home: Option<Seq<char>>, home: Option<Seq<char>>) -> Option<Seq<char>> {
    let root = match xdg_config_home {
        Some(v) if v.len() > 0 && v[0] == '/' => Some(v),
        _ => match home {
            Some(h) => Some(path_join(h, ".config"@)),
            None => None,
        },
    };
    match root {
        Some(r) => Some(path_join(path_join(r, "autostart"@), "lyricslens.desktop"@)),
        None => None,
    }
}

/// Where the entry lives, given the values of `XDG_CONFIG_HOME` and `HOME`.
pub fn path(xdg_config_home: Option<&str>, home: Option<&str>) -> (r: Option<String>)
    ensures
        match entry_path(opt_view(xdg_config_home), opt_view(home)) {
            Some(p) => r is Some && r->0@ == p,
            None => r is None,
        },
{
    let root = match xdg_config_home {
        Some(v) if v.unicode_len() > 0 && v.get_char(0) == '/' => chars_of(v),
        _ => match home {
            Some(h) => join_path(chars_of(h).as_slice(), ".config"),
            None => return None,
        },
    };
    let a = join_path(root.as_slice(), "autostart");
    Some(string_of(join_path(a.as_slice(), "lyricslens.desktop").as_slice()))
}

/// The text of the entry, pointing at `program` by its full path: the
/// directory it lives in is not always on the PATH a session hands out.
pub open spec fn entry_text(program: Seq<char>) -> Seq<char> {
    "[Desktop Entry]\nType=Application\nName=LyricsLens\nComment=Synced lyrics on top of any application\nExec="@
        + program + "\nIcon=lyricslens\nTerminal=false\nX-GNOME-Autostart-enabled=true\n"@
}

pub fn entry(program: &str) -> (r: String)
    ensures
        r@ == entry_text(program@),
{
    let mut out = chars_of(
        "[Desktop Entry]\nType=Application\nName=LyricsLens\nComment=Synced lyrics on top of any application\nExec=",
    );
    extend(&mut out, chars_of(program).as_slice());
    extend(&mut out, chars_of("\nIcon=lyricslens\nTerminal=false\nX-GNOME-Autostart-enabled=true\n").as_slice());
    string_of(out.as_slice())
}

/// Whether the program is set to start with the session: whether the entry
/// exists, when there is a place for it at all.
pub fn enabled(path: Option<&str>, exists: bool) -> (r: bool)
    ensures
        r == (path is Some && exists),
{
    path.is_some() && exists
}

} // verus!
