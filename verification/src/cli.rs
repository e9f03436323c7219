//! What the program does before it ever opens a window: which flag asks for
//! what. Reading the arguments, printing, and starting processes are done
//! outside the library.
//!
//! No argument parser: there are a handful of flags, none of them take a
//! value, and a dependency to match a string against a list would be a
//! dependency for nothing.

use vstd::prelude::*;

use crate::text::{chars_of, extend, same_text, string_of};

verus! {

pub const INSTALLER: &'static str = "https://raw.githubusercontent.com/Julio0Cesar/lyricslens/main/install.sh";

pub const HELP: &'static str = "\
LyricsLens — synced lyrics over any window

Usage:
  lyricslens [option]

Options:
  -h, --help        print this and exit
  -V, --version     print the version and exit
      --foreground  keep the terminal, instead of letting go of it
      --settings    open the preferences window
      --toggle      hide the overlay, or bring it back
      --position    drag the overlay somewhere else, then press again
      --quit        close the overlay that is running
      --paths       print where the settings, the cache and the log live
      --upgrade     install the newest release over this one
      --uninstall   remove the program from ~/.local

With no option, the overlay runs in the background and gives the terminal back.
`lls` is the same program under a shorter name.

Hiding and moving belong to a key of your own: Wayland gives a program no way
to claim one, so bind your compositor to `lyricslens --toggle`.

Environment:
  LYRICSLENS_PLAYER  part of a player's bus name, when more than one is open
  RUST_LOG           how much to log, for example lyricslens=debug

Home: https://github.com/Julio0Cesar/lyricslens
";

/// Marks the copy that was started in the background, so it does not try to
/// start another.
pub const CHILD: &'static str = "LYRICSLENS_DETACHED";

/// What the arguments ask for before any window opens.
#[derive(Debug, PartialEq, Eq)]
pub enum Asked {
    Help,
    Version,
    Paths,
    Upgrade,
    Uninstall,
    /// An argument nobody recognises is a typo, and silently running the
    /// overlay instead would hide it.
    Unknown(String),
    /// Nothing to do here: carry on and open a window.
    Run,
}

pub open spec fn views(arguments: Seq<String>) -> Seq<Seq<char>> {
    arguments.map_values(|a: String| a@)
}

pub open spec fn given(arguments: Seq<Seq<char>>, flag: Seq<char>) -> bool {
    arguments.contains(flag)
}

/// The flags this program answers to.
pub open spec fn is_known(a: Seq<char>) -> bool {
    ||| a == "-h"@
    ||| a == "--help"@
    ||| a == "-V"@
    ||| a == "--version"@
    ||| a == "--paths"@
    ||| a == "--upgrade"@
    ||| a == "--uninstall"@
    ||| a == "--foreground"@
    ||| a == "--settings"@
    ||| a == "--toggle"@
    ||| a == "--position"@
    ||| a == "--quit"@
}

/// Where the first argument that looks like a flag and is none of ours is.
pub open spec fn first_unknown(arguments: Seq<Seq<char>>) -> Option<int>
    decreases arguments.len(),
{
    if arguments.len() == 0 {
        None
    } else if arguments[0].len() > 0 && arguments[0][0] == '-' && !is_known(arguments[0]) {
        Some(0)
    } else {
        match first_unknown(arguments.drop_first()) {
            Some(i) => Some(i + 1),
            None => None,
        }
    }
}

/// Whether `flag` is one of the arguments.
pub(crate) fn has_flag(arguments: &[String], flag: &str) -> (r: bool)
    ensures
        r == given(views(arguments@), flag@),
{
    let mut i: usize = 0;
    while i < arguments.len()
        invariant
            i <= arguments@.len(),
            forall|k: int| 0 <= k < i ==> arguments@[k]@ != flag@,
        decreases arguments@.len() - i,
    {
        if same_text(arguments[i].as_str(), flag) {
            assert(views(arguments@)[i as int] == flag@);
            return true;
        }
        i = i + 1;
    }
    assert forall|k: int| 0 <= k < views(arguments@).len() implies views(arguments@)[k] != flag@ by {
        assert(views(arguments@)[k] == arguments@[k]@);
    }
    false
}

fn known(argument: &str) -> (r: bool)
    ensures
        r == is_known(argument@),
{
    same_text(argument, "-h") || same_text(argument, "--help") || same_text(argument, "-V")
        || same_text(argument, "--version") || same_text(argument, "--paths") || same_text(
        argument,
        "--upgrade",
    ) || same_text(argument, "--uninstall") || same_text(argument, "--foreground") || same_text(
        argument,
        "--settings",
    ) || same_text(argument, "--toggle") || same_text(argument, "--position") || same_text(
        argument,
        "--quit",
    )
}

/// What the arguments, without the program's own name, ask for.
pub fn asked(arguments: &[String]) -> (r: Asked)
    ensures
        ({
            let a = views(arguments@);
            if given(a, "-h"@) || given(a, "--help"@) {
                r == Asked::Help
            } else if given(a, "-V"@) || given(a, "--version"@) {
                r == Asked::Version
            } else if given(a, "--paths"@) {
                r == Asked::Paths
            } else if given(a, "--upgrade"@) {
                r == Asked::Upgrade
            } else if given(a, "--uninstall"@) {
                r == Asked::Uninstall
            } else {
                match first_unknown(a) {
                    Some(i) => r matches Asked::Unknown(u) && u@ == a[i],
                    None => r == Asked::Run,
                }
            }
        }),
{
    if has_flag(arguments, "-h") || has_flag(arguments, "--help") {
        return Asked::Help;
    }
    if has_flag(arguments, "-V") || has_flag(arguments, "--version") {
        return Asked::Version;
    }
    if has_flag(arguments, "--paths") {
        return Asked::Paths;
    }
    if has_flag(arguments, "--upgrade") {
        return Asked::Upgrade;
    }
    if has_flag(arguments, "--uninstall") {
        return Asked::Uninstall;
    }
    let ghost a = views(arguments@);
    assert(a.skip(0) =~= a);
    let mut i: usize = 0;
    while i < arguments.len()
        invariant
            i <= arguments@.len(),
            a == views(arguments@),
            !(given(a, "-h"@) || given(a, "--help"@)),
            !(given(a, "-V"@) || given(a, "--version"@)),
            !given(a, "--paths"@),
            !given(a, "--upgrade"@),
            !given(a, "--uninstall"@),
            first_unknown(a) == match first_unknown(a.skip(i as int)) {
                Some(k) => Some(k + i),
                None => None::<int>,
            },
        decreases arguments@.len() - i,
    {
        let arg = arguments[i].as_str();
        proof {
            let rest = a.skip(i as int);
            assert(rest[0] == arg@);
            assert(rest.drop_first() =~= a.skip(i + 1));
        }
        if arg.unicode_len() > 0 && arg.get_char(0) == '-' && !known(arg) {
            proof {
                let rest = a.skip(i as int);
                assert(rest[0].len() > 0 && rest[0][0] == '-' && !is_known(rest[0]));
                assert(first_unknown(rest) == Some(0int));
                assert(a[i as int] == arguments@[i as int]@);
            }
            return Asked::Unknown(arguments[i].clone());
        }
        i = i + 1;
    }
    assert(a.skip(i as int) =~= Seq::<Seq<char>>::empty());
    Asked::Run
}

/// Whether there is a terminal to print to: only `--foreground` means someone
/// is watching.
pub fn holds_terminal(arguments: &[String]) -> (r: bool)
    ensures
        r == given(views(arguments@), "--foreground"@),
{
    has_flag(arguments, "--foreground")
}

/// Whether this run should stay put rather than starting a copy of itself in
/// the background. `detached` is whether the marker [`CHILD`] is set, or the
/// copy would start copies forever.
pub fn wants_foreground(arguments: &[String], detached: bool) -> (r: bool)
    ensures
        r == (given(views(arguments@), "--foreground"@) || detached),
{
    holds_terminal(arguments) || detached
}

/// The action a command-line flag asks the running overlay for: the first of
/// `--toggle`, `--position`, `--settings`, `--quit` that was given.
pub fn command_for(arguments: &[String]) -> (r: Option<&'static str>)
    ensures
        ({
            let a = views(arguments@);
            if given(a, "--toggle"@) {
                r matches Some(c) && c@ == "toggle"@
            } else if given(a, "--position"@) {
                r matches Some(c) && c@ == "position"@
            } else if given(a, "--settings"@) {
                r matches Some(c) && c@ == "settings"@
            } else if given(a, "--quit"@) {
                r matches Some(c) && c@ == "quit"@
            } else {
                r is None
            }
        }),
{
    if has_flag(arguments, "--toggle") {
        Some("toggle")
    } else if has_flag(arguments, "--position") {
        Some("position")
    } else if has_flag(arguments, "--settings") {
        Some("settings")
    } else if has_flag(arguments, "--quit") {
        Some("quit")
    } else {
        None
    }
}

/// ` a b c`: each argument after a space.
pub open spec fn spaced(arguments: Seq<Seq<char>>) -> Seq<char>
    decreases arguments.len(),
{
    if arguments.len() == 0 {
        Seq::empty()
    } else {
        spaced(arguments.drop_last()) + " "@ + arguments.last()
    }
}

/// The shell line that runs the installer, with its own arguments.
pub open spec fn script(arguments: Seq<Seq<char>>) -> Seq<char> {
    let base = "curl -fsSL "@ + INSTALLER@ + " | sh"@;
    if arguments.len() == 0 {
        base
    } else {
        base + " -s --"@ + spaced(arguments)
    }
}

/// Upgrading and removing are the installer's job; doing it twice, in two
/// languages, is how the two drift apart. This is the line handed to `sh -c`.
pub fn installer_script(arguments: &[&str]) -> (r: String)
    ensures
        r@ == script(arguments@.map_values(|a: &str| a@)),
{
    let ghost a = arguments@.map_values(|a: &str| a@);
    let mut out = chars_of("curl -fsSL ");
    extend(&mut out, &chars_of(INSTALLER));
    extend(&mut out, &chars_of(" | sh"));
    if arguments.len() > 0 {
        extend(&mut out, &chars_of(" -s --"));
        let ghost base = out@;
        let mut i: usize = 0;
        while i < arguments.len()
            invariant
                i <= arguments@.len(),
                a == arguments@.map_values(|a: &str| a@),
                out@ == base + spaced(a.take(i as int)),
            decreases arguments@.len() - i,
        {
            extend(&mut out, &chars_of(" "));
            extend(&mut out, &chars_of(arguments[i]));
            proof {
                assert(a.take(i + 1).drop_last() =~= a.take(i as int));
                assert(a.take(i + 1).last() == arguments@[i as int]@);
            }
            assert(out@ =~= base + spaced(a.take(i + 1)));
            i = i + 1;
        }
        assert(a.take(arguments@.len() as int) =~= a);
    }
    string_of(out.as_slice())
}

/// The installer's exit status as this program's: its code when it fits in a
/// byte, else a plain failure.
pub fn exit_status(code: Option<i32>) -> (r: u8)
    ensures
        r == match code {
            Some(c) => if 0 <= c <= 255 {
                c as u8
            } else {
                1u8
            },
            None => 1u8,
        },
{
    match code {
        Some(c) => if 0 <= c && c <= 255 {
            c as u8
        } else {
            1
        },
        None => 1,
    }
}

/// `s` padded with spaces to `width` characters, as `{:width}` does.
pub open spec fn padded(s: Seq<char>, width: nat) -> Seq<char> {
    if s.len() < width {
        s + Seq::new((width - s.len()) as nat, |i: int| ' ')
    } else {
        s
    }
}

/// One line of `--paths`: the name in a column of ten, then where it lives.
pub fn path_line(name: &str, path: Option<&str>) -> (r: String)
    ensures
        r@ == padded(name@, 10) + " "@ + match path {
            Some(p) => p@,
            None => "(no home directory)"@,
        },
{
    let mut out = chars_of(name);
    let ghost start = out@;
    while out.len() < 10
        invariant
            start == name@,
            start.len() <= out@.len() <= if start.len() < 10 { 10 } else { start.len() },
            out@ == start + Seq::new((out@.len() - start.len()) as nat, |i: int| ' '),
        decreases 10 - out@.len(),
    {
        out.push(' ');
        assert(out@ =~= start + Seq::new((out@.len() - start.len()) as nat, |i: int| ' '));
    }
    proof {
        if start.len() >= 10 {
            assert(out@ =~= start);
        }
    }
    extend(&mut out, &chars_of(" "));
    match path {
        Some(p) => extend(&mut out, &chars_of(p)),
        None => extend(&mut out, &chars_of("(no home directory)")),
    }
    string_of(out.as_slice())
}

/// One of the flags `HELP` lists.
pub open spec fn listed_in_help(a: Seq<char>) -> bool {
    ||| a == "-h"@
    ||| a == "--help"@
    ||| a == "-V"@
    ||| a == "--version"@
    ||| a == "--foreground"@
    ||| a == "--settings"@
    ||| a == "--toggle"@
    ||| a == "--position"@
    ||| a == "--quit"@
    ||| a == "--paths"@
    ||| a == "--upgrade"@
    ||| a == "--uninstall"@
}

/// Every flag the help lists is one this program answers to: arguments made
/// only of such flags hold no unknown one, so when none of them asks for
/// help, the version, the paths, an upgrade or an uninstall, the answer is to
/// run.
pub proof fn law_every_flag_the_help_lists_is_known(arguments: Seq<Seq<char>>)
    requires
        forall|i: int| 0 <= i < arguments.len() ==> listed_in_help(#[trigger] arguments[i]),
    ensures
        first_unknown(arguments) is None,
    decreases arguments.len(),
{
    if arguments.len() > 0 {
        let rest = arguments.drop_first();
        assert forall|i: int| 0 <= i < rest.len() implies listed_in_help(#[trigger] rest[i]) by {
            assert(rest[i] == arguments[i + 1]);
        }
        law_every_flag_the_help_lists_is_known(rest);
        assert(listed_in_help(arguments[0]));
    }
}

} // verus!
