//! Asking the compositor for a key combination.
//!
//! Wayland gives an ordinary client no way to claim one: the compositor owns
//! every key, and a program that wants one has to ask. Hyprland and Sway both
//! take the request over their own control socket. Here is what to ask and
//! how; running the request is done outside the library.

use vstd::prelude::*;

use crate::text::{
    ascii_upper_seq, ascii_uppercase, chars_of, eq_chars, extend, join, join_chars, pieces_view,
    rfind, rfind_chars, slice_vec, string_of, trim, trimmed, words, words_of,
};
use crate::webview::overlay::hotkey::strings_view;

verus! {

/// The compositors that can be asked, and everything else.
#[derive(Debug, Clone, Copy, PartialEq, Eq, Structural)]
pub enum Compositor {
    Hyprland,
    Sway,
    /// Somewhere else. The key stays the user's to configure.
    Unknown,
}

/// Which one is running, from whether `HYPRLAND_INSTANCE_SIGNATURE` and
/// `SWAYSOCK` are set; Hyprland is asked about first.
pub fn compositor(hyprland_signature: bool, swaysock: bool) -> (c: Compositor)
    ensures
        c == if hyprland_signature {
            Compositor::Hyprland
        } else if swaysock {
            Compositor::Sway
        } else {
            Compositor::Unknown
        },
{
    if hyprland_signature {
        Compositor::Hyprland
    } else if swaysock {
        Compositor::Sway
    } else {
        Compositor::Unknown
    }
}

/// `SUPER SHIFT, L` into its two halves, at the last comma: the modifiers
/// with single spaces, and the key trimmed. A key on its own has no
/// modifiers.
pub open spec fn halves(combination: Seq<char>) -> (Seq<char>, Seq<char>) {
    match rfind(combination, seq![',']) {
        Some(k) => (join(words(combination.take(k)), " "@), trim(combination.skip(k + 1))),
        None => (Seq::empty(), combination),
    }
}

pub fn split(combination: &str) -> (r: (String, String))
    ensures
        (r.0@, r.1@) == halves(combination@),
{
    let s = chars_of(combination);
    let comma = vec![','];
    assert(comma@ =~= seq![',']);
    match rfind_chars(s.as_slice(), comma.as_slice()) {
        Some(k) => {
            proof {
                crate::text::lemma_rfind_before(s@, seq![','], s@.len() - 1);
            }
            let n = s.len();
            let antes = slice_vec(s.as_slice(), 0, k);
            assert(antes@ =~= s@.take(k as int));
            let depois = slice_vec(s.as_slice(), k + 1, n);
            assert(depois@ =~= s@.skip(k + 1));
            let ws = words_of(antes.as_slice());
            (string_of(join_chars(ws.as_slice(), " ").as_slice()), string_of(trimmed(depois.as_slice()).as_slice()))
        },
        None => (String::new(), string_of(s.as_slice())),
    }
}

/// A modifier the way Sway spells it; one it does not know stays, in upper
/// case.
pub open spec fn sway_modifier(m: Seq<char>) -> Seq<char> {
    let up = ascii_upper_seq(m);
    if up == "SUPER"@ || up == "MOD"@ || up == "WIN"@ {
        "Mod4"@
    } else if up == "ALT"@ {
        "Mod1"@
    } else if up == "CTRL"@ || up == "CONTROL"@ {
        "Control"@
    } else if up == "SHIFT"@ {
        "Shift"@
    } else {
        up
    }
}

/// Sway spells the modifiers differently and joins them with a plus.
pub open spec fn sway_combination(modifiers: Seq<char>, key: Seq<char>) -> Seq<char> {
    join(words(modifiers).map_values(|m: Seq<char>| sway_modifier(m)).push(key), "+"@)
}

fn is(a: &[char], b: &str) -> (r: bool)
    ensures
        r == (a@ == b@),
{
    eq_chars(a, chars_of(b).as_slice())
}

fn modifier(m: &[char]) -> (r: Vec<char>)
    ensures
        r@ == sway_modifier(m@),
{
    let up = ascii_uppercase(m);
    if is(up.as_slice(), "SUPER") || is(up.as_slice(), "MOD") || is(up.as_slice(), "WIN") {
        chars_of("Mod4")
    } else if is(up.as_slice(), "ALT") {
        chars_of("Mod1")
    } else if is(up.as_slice(), "CTRL") || is(up.as_slice(), "CONTROL") {
        chars_of("Control")
    } else if is(up.as_slice(), "SHIFT") {
        chars_of("Shift")
    } else {
        up
    }
}

pub fn sway_keys(modifiers: &str, key: &str) -> (r: String)
    ensures
        r@ == sway_combination(modifiers@, key@),
{
    let ws = words_of(chars_of(modifiers).as_slice());
    let ghost wv = pieces_view(ws@);
    let mut parts: Vec<Vec<char>> = Vec::new();
    let mut i: usize = 0;
    while i < ws.len()
        invariant
            i <= ws@.len(),
            wv == pieces_view(ws@),
            parts@.len() == i,
            forall|j: int| 0 <= j < i ==> (#[trigger] parts@[j])@ == sway_modifier(wv[j]),
        decreases ws@.len() - i,
    {
        assert(wv[i as int] == ws@[i as int]@);
        parts.push(modifier(ws[i].as_slice()));
        i = i + 1;
    }
    let ghost before = pieces_view(parts@);
    assert(before =~= wv.map_values(|m: Seq<char>| sway_modifier(m)));
    parts.push(chars_of(key));
    assert(pieces_view(parts@) =~= before.push(key@));
    string_of(join_chars(parts.as_slice(), "+").as_slice())
}

/// What to run to ask for `combination` to start `program` with `flag`:
/// nothing for an empty combination, and an error where no one can be asked.
pub open spec fn request_for(combination: Seq<char>, flag: Seq<char>, program: Seq<char>, c: Compositor) -> Result<
    Option<(Seq<char>, Seq<Seq<char>>)>,
    Seq<char>,
> {
    let combo = trim(combination);
    if combo.len() == 0 {
        Ok(None)
    } else {
        let (modifiers, key) = halves(combo);
        match c {
            Compositor::Hyprland => Ok(
                Some(
                    (
                        "hyprctl"@,
                        seq![
                            "keyword"@,
                            "bind"@,
                            modifiers + ","@ + key + ",exec,"@ + program + " "@ + flag,
                        ],
                    ),
                ),
            ),
            Compositor::Sway => Ok(
                Some(
                    (
                        "swaymsg"@,
                        seq![
                            "bindsym"@,
                            sway_combination(modifiers, key),
                            "exec"@,
                            program + " "@ + flag,
                        ],
                    ),
                ),
            ),
            Compositor::Unknown => Err("this desktop has no way to be asked; bind the key yourself"@),
        }
    }
}

fn joined(parts: &[&str]) -> (r: String)
    requires
        parts@.len() == 6,
    ensures
        r@ == parts@[0]@ + parts@[1]@ + parts@[2]@ + parts@[3]@ + parts@[4]@ + parts@[5]@,
{
    let mut out = chars_of(parts[0]);
    extend(&mut out, chars_of(parts[1]).as_slice());
    extend(&mut out, chars_of(parts[2]).as_slice());
    extend(&mut out, chars_of(parts[3]).as_slice());
    extend(&mut out, chars_of(parts[4]).as_slice());
    extend(&mut out, chars_of(parts[5]).as_slice());
    string_of(out.as_slice())
}

/// Asks for `combination` to run `program` with `flag`: the command to run
/// and its arguments. The combination is written the way Hyprland writes it
/// and translated for Sway.
pub fn request(combination: &str, flag: &str, program: &str, c: Compositor) -> (r: Result<Option<(String, Vec<String>)>, String>)
    ensures
        match request_for(combination@, flag@, program@, c) {
            Ok(None) => r is Ok && r->Ok_0 is None,
            Ok(Some((cmd, args))) => r is Ok && r->Ok_0 is Some && r->Ok_0.unwrap().0@ == cmd && strings_view(r->Ok_0.unwrap().1@) == args,
            Err(e) => r is Err && r->Err_0@ == e,
        },
{
    let combo = string_of(trimmed(chars_of(combination).as_slice()).as_slice());
    if combo.unicode_len() == 0 {
        return Ok(None);
    }
    let (modifiers, key) = split(combo.as_str());
    match c {
        Compositor::Hyprland => {
            let mut args: Vec<String> = Vec::new();
            args.push(string_of(chars_of("keyword").as_slice()));
            args.push(string_of(chars_of("bind").as_slice()));
            args.push(joined(&[modifiers.as_str(), ",", key.as_str(), ",exec,", program, " "]));
            let last = args.pop().unwrap();
            let mut l = chars_of(last.as_str());
            extend(&mut l, chars_of(flag).as_slice());
            args.push(string_of(l.as_slice()));
            assert(strings_view(args@) =~= seq![
                "keyword"@,
                "bind"@,
                modifiers@ + ","@ + key@ + ",exec,"@ + program@ + " "@ + flag@,
            ]);
            Ok(Some((string_of(chars_of("hyprctl").as_slice()), args)))
        },
        Compositor::Sway => {
            let mut args: Vec<String> = Vec::new();
            args.push(string_of(chars_of("bindsym").as_slice()));
            args.push(sway_keys(modifiers.as_str(), key.as_str()));
            args.push(string_of(chars_of("exec").as_slice()));
            let mut p = chars_of(program);
            extend(&mut p, chars_of(" ").as_slice());
            extend(&mut p, chars_of(flag).as_slice());
            args.push(string_of(p.as_slice()));
            assert(strings_view(args@) =~= seq![
                "bindsym"@,
                sway_combination(modifiers@, key@),
                "exec"@,
                program@ + " "@ + flag@,
            ]);
            Ok(Some((string_of(chars_of("swaymsg").as_slice()), args)))
        },
        Compositor::Unknown => Err(string_of(chars_of("this desktop has no way to be asked; bind the key yourself").as_slice())),
    }
}

/// The line to put in a configuration file, for a desktop that will not be
/// asked: Sway's `bindsym`, or Hyprland's `bind =` everywhere else. An empty
/// combination stands for `SUPER, L`.
pub open spec fn snippet_for(combination: Seq<char>, flag: Seq<char>, program: Seq<char>, c: Compositor) -> Seq<char> {
    let combo = if trim(combination).len() == 0 {
        "SUPER, L"@
    } else {
        trim(combination)
    };
    let (modifiers, key) = halves(combo);
    match c {
        Compositor::Sway => "bindsym "@ + sway_combination(modifiers, key) + " exec "@ + program + " "@ + flag,
        _ => "bind = "@ + modifiers + ", "@ + key + ", exec, "@ + program + " "@ + flag,
    }
}

pub fn snippet(combination: &str, flag: &str, program: &str, c: Compositor) -> (r: String)
    ensures
        r@ == snippet_for(combination@, flag@, program@, c),
{
    let t = trimmed(chars_of(combination).as_slice());
    let combo = if t.len() == 0 {
        string_of(chars_of("SUPER, L").as_slice())
    } else {
        string_of(t.as_slice())
    };
    let (modifiers, key) = split(combo.as_str());
    let mut out = match c {
        Compositor::Sway => {
            let mut o = chars_of("bindsym ");
            extend(&mut o, chars_of(sway_keys(modifiers.as_str(), key.as_str()).as_str()).as_slice());
            extend(&mut o, chars_of(" exec ").as_slice());
            o
        },
        _ => {
            let mut o = chars_of("bind = ");
            extend(&mut o, chars_of(modifiers.as_str()).as_slice());
            extend(&mut o, chars_of(", ").as_slice());
            extend(&mut o, chars_of(key.as_str()).as_slice());
            extend(&mut o, chars_of(", exec, ").as_slice());
            o
        },
    };
    extend(&mut out, chars_of(program).as_slice());
    extend(&mut out, chars_of(" ").as_slice());
    extend(&mut out, chars_of(flag).as_slice());
    string_of(out.as_slice())
}

} // verus!
