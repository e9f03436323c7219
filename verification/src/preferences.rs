//! What the preferences window decides without drawing anything: whether a
//! typed colour can be used, and how a recording's length reads.

use vstd::prelude::*;

use crate::cli::{given, has_flag, views};
use crate::text::{chars_of, decimal, decimal_chars, extend, string_of, zero_pad, zero_padded};

verus! {

pub open spec fn is_hex_digit(c: char) -> bool {
    ('0' <= c <= '9') || ('a' <= c <= 'f') || ('A' <= c <= 'F')
}

pub open spec fn is_letter(c: char) -> bool {
    ('a' <= c <= 'z') || ('A' <= c <= 'Z')
}

/// `#` and three, four, six or eight hex digits, or a name made of letters.
pub open spec fn colour_like(v: Seq<char>) -> bool {
    if v.len() > 0 && v[0] == '#' {
        let d = v.skip(1);
        &&& (d.len() == 3 || d.len() == 4 || d.len() == 6 || d.len() == 8)
        &&& forall|i: int| 0 <= i < d.len() ==> is_hex_digit(#[trigger] d[i])
    } else {
        &&& v.len() > 0
        &&& forall|i: int| 0 <= i < v.len() ==> is_letter(#[trigger] v[i])
    }
}

/// Enough of a check to keep a half-typed colour from blanking the text.
///
/// Named colours are fine too, and GTK knows more of them than we do.
pub fn looks_like_a_colour(value: &str) -> (r: bool)
    ensures
        r == colour_like(value@),
{
    let v = chars_of(value);
    if v.len() > 0 && v[0] == '#' {
        let n = v.len() - 1;
        if !(n == 3 || n == 4 || n == 6 || n == 8) {
            return false;
        }
        let mut i: usize = 1;
        while i < v.len()
            invariant
                1 <= i <= v@.len(),
                v@ == value@,
                v@.len() > 0 && v@[0] == '#',
                v@.len() - 1 == 3 || v@.len() - 1 == 4 || v@.len() - 1 == 6 || v@.len() - 1 == 8,
                forall|k: int| 0 <= k < i - 1 ==> is_hex_digit(#[trigger] v@.skip(1)[k]),
            decreases v@.len() - i,
        {
            let c = v[i];
            if !(('0' <= c && c <= '9') || ('a' <= c && c <= 'f') || ('A' <= c && c <= 'F')) {
                assert(!is_hex_digit(v@.skip(1)[i - 1]));
                return false;
            }
            i = i + 1;
        }
        true
    } else {
        if v.len() == 0 {
            return false;
        }
        let mut i: usize = 0;
        while i < v.len()
            invariant
                i <= v@.len(),
                v@ == value@,
                v@.len() > 0,
                !(v@[0] == '#'),
                forall|k: int| 0 <= k < i ==> is_letter(#[trigger] v@[k]),
            decreases v@.len() - i,
        {
            let c = v[i];
            if !(('a' <= c && c <= 'z') || ('A' <= c && c <= 'Z')) {
                assert(!is_letter(v@[i as int]));
                return false;
            }
            i = i + 1;
        }
        true
    }
}

/// `m:ss` for a length of `ms` milliseconds, whole seconds only; `--:--`
/// when the length is not known.
pub open spec fn length_text(ms: Option<u64>) -> Seq<char> {
    match ms {
        Some(ms) => {
            let seconds = ms / 1000;
            decimal((seconds / 60) as nat) + ":"@ + zero_pad(decimal((seconds % 60) as nat), 2)
        },
        None => "--:--"@,
    }
}

/// How long a recording is, as the list of candidates shows it.
pub fn length(length_ms: Option<u64>) -> (r: String)
    ensures
        r@ == length_text(length_ms),
{
    match length_ms {
        Some(ms) => {
            let seconds = ms / 1000;
            let mut out = decimal_chars(seconds / 60);
            extend(&mut out, &chars_of(":"));
            extend(&mut out, &zero_padded(seconds % 60, 2));
            string_of(out.as_slice())
        },
        None => string_of(chars_of("--:--").as_slice()),
    }
}

/// True when the program was asked for the preferences window rather than the
/// overlay.
pub fn requested(arguments: &[String]) -> (r: bool)
    ensures
        r == given(views(arguments@), "--settings"@),
{
    has_flag(arguments, "--settings")
}

} // verus!
