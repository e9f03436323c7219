//! What survives a restart: where the settings and the fetched lyrics live.

pub mod autostart;
pub mod cache;
pub mod settings;

use vstd::prelude::*;

use crate::text::{chars_of, join_path, path_join, string_of};

verus! {

/// `$VARIABLE/lyricslens` when the variable holds an absolute path, else
/// `$HOME/<fallback>/lyricslens`; nothing without either. The specification
/// says a relative value is to be ignored.
pub open spec fn xdg_dir(value: Option<Seq<char>>, home: Option<Seq<char>>, fallback: Seq<char>) -> Option<Seq<char>> {
    match value {
        Some(v) if v.len() > 0 && v[0] == '/' => Some(path_join(v, "lyricslens"@)),
        _ => match home {
            Some(h) => Some(path_join(path_join(h, fallback), "lyricslens"@)),
            None => None,
        },
    }
}

pub open spec fn opt_view(o: Option<&str>) -> Option<Seq<char>> {
    match o {
        Some(s) => Some(s@),
        None => None,
    }
}

fn base(value: Option<&str>, home: Option<&str>, fallback: &str) -> (r: Option<String>)
    ensures
        match xdg_dir(opt_view(value), opt_view(home), fallback@) {
            Some(d) => r is Some && r->0@ == d,
            None => r is None,
        },
{
    let root = match value {
        Some(v) if v.unicode_len() > 0 && v.get_char(0) == '/' => chars_of(v),
        _ => match home {
            Some(h) => join_path(chars_of(h).as_slice(), fallback),
            None => return None,
        },
    };
    Some(string_of(join_path(root.as_slice(), "lyricslens").as_slice()))
}

/// `$XDG_CONFIG_HOME/lyricslens`, or `~/.config/lyricslens`, given the values
/// of the two variables.
pub fn config_dir(xdg_config_home: Option<&str>, home: Option<&str>) -> (r: Option<String>)
    ensures
        match xdg_dir(opt_view(xdg_config_home), opt_view(home), ".config"@) {
            Some(d) => r is Some && r->0@ == d,
            None => r is None,
        },
{
    base(xdg_config_home, home, ".config")
}

/// `$XDG_CACHE_HOME/lyricslens`, or `~/.cache/lyricslens`, given the values of
/// the two variables.
pub fn cache_dir(xdg_cache_home: Option<&str>, home: Option<&str>) -> (r: Option<String>)
    ensures
        match xdg_dir(opt_view(xdg_cache_home), opt_view(home), ".cache"@) {
            Some(d) => r is Some && r->0@ == d,
            None => r is None,
        },
{
    base(xdg_cache_home, home, ".cache")
}

} // verus!
