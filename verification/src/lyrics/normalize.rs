//! Turning what a player reports into something worth searching for.
//!
//! A music player hands over a clean artist and title. A browser playing
//! YouTube hands over the video's name and the channel's name, which is a
//! different thing: `Artist - Title (Official Video) [HD] ft. Someone`, from a
//! channel called `ArtistVEVO`. Searching for that finds nothing.
//!
//! The patterns are regular expressions, run by the `regex` crate; what they
//! match is named, not spelled out, and the rest of the cleanup is proved
//! against those names.

use vstd::prelude::*;

use crate::text::{
    chars_of, eq_chars, extend, find, find_chars, index_of, index_of_char, is_alphanumeric, is_ws,
    join_chars, lowercase, matches_at, rfind, rfind_chars, slice_vec, squeeze, squeezed, string_of, trim,
    trimmed, unicode_alphanumeric, unicode_lowercase,
};

verus! {

/// Words that only ever describe the upload, never the song. Uploaders stack
/// them — `(Official Video Remastered)`, `[Official Music Video HD]` — so the
/// whole group has to be nothing but these.
pub const NOISE: &'static str = r#"(?ix)^[\s\-/,|]*(?:
        official | music | lyric[s]? | audio | video | visuali[sz]er
      | remaster(?:ed)? | explicit | full | album | live\s+performance
      | hd | hq | 4k | 8k | 1080p | 720p | m/?v | color\s+coded
      | \d{4}
    )(?:[\s\-/,|]+(?:
        official | music | lyric[s]? | audio | video | visuali[sz]er
      | remaster(?:ed)? | explicit | full | album | live\s+performance
      | hd | hq | 4k | 8k | 1080p | 720p | m/?v | color\s+coded
      | \d{4}
    ))*[\s\-/,|]*$"#;

/// `feat. X`, in any of the spellings uploaders use.
pub const FEATURING: &'static str = r#"(?i)\s*[\(\[]?\s*\b(?:feat\.?|ft\.?|featuring|with)\b\s*([^)\]\|]*)[\)\]]?\s*$"#;

/// A channel name is not an artist name.
pub const CHANNEL: &'static str = r#"(?i)(vevo$|\s-\s*topic$|official$|^youtube$|records$|\bTV$)"#;

/// Whether `regex::Regex::new` accepts `pattern`.
pub uninterp spec fn regex_compiles(pattern: Seq<char>) -> bool;

/// What `regex::Regex::is_match` answers for `haystack`, with `pattern`
/// compiled.
pub uninterp spec fn regex_matches(pattern: Seq<char>, haystack: Seq<char>) -> bool;

/// What `regex::Regex::replace` gives back: `haystack` with its first match
/// of `pattern` replaced by `replacement`.
pub uninterp spec fn regex_replaced(pattern: Seq<char>, haystack: Seq<char>, replacement: Seq<char>) -> Seq<char>;

/// `regex::Regex::new(pattern)`, then `is_match(haystack)` on what it built.
/// The contract claims that the pattern compiles or not whatever the text, and
/// that the answer is a function of pattern and text; what the answer is, is
/// left to the crate.
#[verifier::external_body]
fn regex_is_match(pattern: &str, haystack: &str) -> (r: Option<bool>)
    ensures
        r is Some <==> regex_compiles(pattern@),
        r matches Some(b) ==> b == regex_matches(pattern@, haystack@),
{
    match regex::Regex::new(pattern) {
        Ok(re) => Some(re.is_match(haystack)),
        Err(_) => None,
    }
}

/// `regex::Regex::new(pattern)`, then `replace(haystack, replacement)` on what
/// it built: the first match replaced. As above, the contract names the
/// result rather than stating it.
#[verifier::external_body]
fn regex_replace(pattern: &str, haystack: &str, replacement: &str) -> (r: Option<String>)
    ensures
        r is Some <==> regex_compiles(pattern@),
        r matches Some(s) ==> s@ == regex_replaced(pattern@, haystack@, replacement@),
{
    match regex::Regex::new(pattern) {
        Ok(re) => Some(re.replace(haystack, replacement).into_owned()),
        Err(_) => None,
    }
}

/// The three patterns compile.
pub open spec fn patterns_compile() -> bool {
    regex_compiles(NOISE@) && regex_compiles(FEATURING@) && regex_compiles(CHANNEL@)
}

/// Nothing in `group` but upload noise.
pub open spec fn is_noise(group: Seq<char>) -> bool {
    regex_matches(NOISE@, group)
}

fn noise(group: &[char]) -> (r: Option<bool>)
    ensures
        r is Some <==> regex_compiles(NOISE@),
        r matches Some(b) ==> b == is_noise(group@),
{
    regex_is_match(NOISE, string_of(group).as_str())
}

/// What to ask a lyrics service for.
#[derive(Debug, Clone, Default, PartialEq, Eq)]
pub struct Query {
    pub artist: Option<String>,
    pub title: String,
}

// ---------------------------------------------------------------------------
// Brackets
// ---------------------------------------------------------------------------

pub open spec fn opens(c: char) -> bool {
    c == '(' || c == '['
}

pub open spec fn closes(c: char) -> bool {
    c == ')' || c == ']'
}

/// Reading left to right: what was kept, how deep in brackets, and the
/// outermost group so far.
pub open spec fn brackets_state(s: Seq<char>) -> (Seq<char>, nat, Seq<char>)
    decreases s.len(),
{
    if s.len() == 0 {
        (Seq::empty(), 0, Seq::empty())
    } else {
        let (out, depth, group) = brackets_state(s.drop_last());
        let c = s.last();
        if opens(c) {
            if depth == 0 {
                (out, 1, Seq::empty())
            } else {
                (out, depth + 1, group.push(c))
            }
        } else if closes(c) && depth > 0 {
            if depth == 1 {
                if is_noise(group) {
                    (out, 0, group)
                } else {
                    (out.push('(') + trim(group) + seq![')'], 0, group)
                }
            } else {
                (out, (depth - 1) as nat, group.push(c))
            }
        } else if depth == 0 {
            (out.push(c), 0, group)
        } else {
            (out, depth, group.push(c))
        }
    }
}

/// Without the `(...)` and `[...]` groups that say nothing about the song; a
/// group that does is kept, in round brackets. A group never closed is
/// dropped. Spaces collapsed.
pub open spec fn without_noise_groups(title: Seq<char>) -> Seq<char> {
    squeeze(brackets_state(title).0)
}

fn strip_brackets(title: &[char]) -> (r: Option<Vec<char>>)
    ensures
        regex_compiles(NOISE@) ==> r is Some && r->0@ == without_noise_groups(title@),
{
    let mut out: Vec<char> = Vec::new();
    let mut depth: usize = 0;
    let mut group: Vec<char> = Vec::new();
    let mut i: usize = 0;
    while i < title.len()
        invariant
            i <= title@.len(),
            depth <= i,
            (out@, depth as nat, group@) == brackets_state(title@.take(i as int)),
        decreases title@.len() - i,
    {
        let c = title[i];
        proof {
            assert(title@.take(i + 1).drop_last() =~= title@.take(i as int));
        }
        if c == '(' || c == '[' {
            if depth == 0 {
                group = Vec::new();
            } else {
                group.push(c);
            }
            depth = depth + 1;
        } else if (c == ')' || c == ']') && depth > 0 {
            if depth == 1 {
                match noise(group.as_slice()) {
                    Some(true) => {},
                    Some(false) => {
                        out.push('(');
                        extend(&mut out, trimmed(group.as_slice()).as_slice());
                        out.push(')');
                    },
                    None => return None,
                }
            } else {
                group.push(c);
            }
            depth = depth - 1;
        } else if depth == 0 {
            out.push(c);
        } else {
            group.push(c);
        }
        i = i + 1;
    }
    assert(title@.take(title@.len() as int) =~= title@);
    Some(squeezed(out.as_slice()))
}

// ---------------------------------------------------------------------------
// The tail
// ---------------------------------------------------------------------------

/// Removes a trailing `| HD`, `| Official Video`, and the like, again and
/// again, from an already trimmed title.
pub open spec fn tail_stripped(t: Seq<char>) -> Seq<char>
    decreases t.len(),
{
    match rfind(t, seq!['|']) {
        Some(k) => if 0 <= k < t.len() && is_noise(t.skip(k + 1)) {
            proof {
                crate::text::lemma_trim_shorter(t.take(k));
            }
            tail_stripped(trim(t.take(k)))
        } else {
            t
        },
        None => t,
    }
}

pub open spec fn without_noise_tail(title: Seq<char>) -> Seq<char> {
    tail_stripped(trim(title))
}

fn strip_tail(title: &[char]) -> (r: Option<Vec<char>>)
    ensures
        regex_compiles(NOISE@) ==> r is Some && r->0@ == without_noise_tail(title@),
{
    let mut t = trimmed(title);
    let bar = vec!['|'];
    assert(bar@ =~= seq!['|']);
    loop
        invariant
            tail_stripped(t@) == without_noise_tail(title@),
            bar@ == seq!['|'],
        decreases t@.len(),
    {
        match rfind_chars(t.as_slice(), bar.as_slice()) {
            Some(k) => {
                proof {
                    crate::text::lemma_rfind_before(t@, seq!['|'], t@.len() - 1);
                }
                let n = t.len();
                let tail = slice_vec(t.as_slice(), k + 1, n);
                assert(tail@ =~= t@.skip(k + 1));
                match noise(tail.as_slice()) {
                    Some(true) => {
                        let head = slice_vec(t.as_slice(), 0, k);
                        assert(head@ =~= t@.take(k as int));
                        let next = trimmed(head.as_slice());
                        proof {
                            crate::text::lemma_trim_shorter(t@.take(k as int));
                            assert(tail_stripped(t@) == tail_stripped(next@));
                        }
                        t = next;
                    },
                    Some(false) => return Some(t),
                    None => return None,
                }
            },
            None => return Some(t),
        }
    }
}

// ---------------------------------------------------------------------------
// Dashes
// ---------------------------------------------------------------------------

/// The two trimmed sides of `title` around the first `dash`, when both have
/// something.
pub open spec fn sides(title: Seq<char>, dash: Seq<char>, i: int) -> Option<(Seq<char>, Seq<char>)> {
    let l = trim(title.take(i));
    let r = trim(title.skip(i + dash.len()));
    if l.len() > 0 && r.len() > 0 {
        Some((l, r))
    } else {
        None
    }
}

/// Split at the first of the dashes, tried in order, that stands in the
/// title: ` - `, ` – `, ` — `, ` ‒ `. `Artist-Title` with no spaces is
/// ambiguous — `Jay-Z` exists — and is never split.
pub open spec fn dash_split(title: Seq<char>) -> Option<(Seq<char>, Seq<char>)> {
    match find(title, " - "@) {
        Some(i) => sides(title, " - "@, i),
        None => match find(title, " – "@) {
            Some(i) => sides(title, " – "@, i),
            None => match find(title, " — "@) {
                Some(i) => sides(title, " — "@, i),
                None => match find(title, " ‒ "@) {
                    Some(i) => sides(title, " ‒ "@, i),
                    None => None,
                },
            },
        },
    }
}

fn split_at_dash(title: &[char], dash: &str) -> (r: Option<Option<(Vec<char>, Vec<char>)>>)
    ensures
        match find(title@, dash@) {
            Some(i) => r is Some && match sides(title@, dash@, i) {
                Some((a, b)) => r->0 is Some && r->0.unwrap().0@ == a && r->0.unwrap().1@ == b,
                None => r->0 is None,
            },
            None => r is None,
        },
{
    let d = chars_of(dash);
    match find_chars(title, d.as_slice()) {
        Some(i) => {
            proof {
                crate::text::lemma_find_from(title@, dash@, 0);
            }
            let n = title.len();
            let antes = slice_vec(title, 0, i);
            assert(antes@ =~= title@.take(i as int));
            let depois = slice_vec(title, i + d.len(), n);
            assert(depois@ =~= title@.skip(i + dash@.len()));
            let l = trimmed(antes.as_slice());
            let r = trimmed(depois.as_slice());
            if l.len() > 0 && r.len() > 0 {
                Some(Some((l, r)))
            } else {
                Some(None)
            }
        },
        None => None,
    }
}

fn split_on_dash(title: &[char]) -> (r: Option<(Vec<char>, Vec<char>)>)
    ensures
        match dash_split(title@) {
            Some((a, b)) => r is Some && r.unwrap().0@ == a && r.unwrap().1@ == b,
            None => r is None,
        },
{
    if let Some(found) = split_at_dash(title, " - ") {
        return found;
    }
    if let Some(found) = split_at_dash(title, " – ") {
        return found;
    }
    if let Some(found) = split_at_dash(title, " — ") {
        return found;
    }
    if let Some(found) = split_at_dash(title, " ‒ ") {
        return found;
    }
    None
}

// ---------------------------------------------------------------------------
// Names
// ---------------------------------------------------------------------------

pub open spec fn is_channel(name: Seq<char>) -> bool {
    regex_matches(CHANNEL@, trim(name))
}

pub open spec fn without_channel(name: Seq<char>) -> Seq<char> {
    trim(regex_replaced(CHANNEL@, trim(name), ""@))
}

/// Only the letters and digits, in lower case.
pub open spec fn folded(s: Seq<char>) -> Seq<char>
    decreases s.len(),
{
    if s.len() == 0 {
        Seq::empty()
    } else {
        let f = folded(s.drop_last());
        if unicode_alphanumeric(s.last()) {
            f.push(s.last())
        } else {
            f
        }
    }
}

/// The same name, told apart by nothing but case, spaces and punctuation.
pub open spec fn same_name(a: Seq<char>, b: Seq<char>) -> bool {
    b.len() > 0 && folded(unicode_lowercase(a)) == folded(unicode_lowercase(b))
}

fn fold(s: &[char]) -> (r: Vec<char>)
    ensures
        r@ == folded(unicode_lowercase(s@)),
{
    let low = lowercase(s);
    let mut out: Vec<char> = Vec::new();
    let mut i: usize = 0;
    while i < low.len()
        invariant
            i <= low@.len(),
            out@ == folded(low@.take(i as int)),
        decreases low@.len() - i,
    {
        proof {
            assert(low@.take(i + 1).drop_last() =~= low@.take(i as int));
        }
        if is_alphanumeric(low[i]) {
            out.push(low[i]);
        }
        i = i + 1;
    }
    assert(low@.take(low@.len() as int) =~= low@);
    out
}

fn same(a: &[char], b: &[char]) -> (r: bool)
    ensures
        r == same_name(a@, b@),
{
    b.len() > 0 && eq_chars(fold(a).as_slice(), fold(b).as_slice())
}

pub open spec fn quote_like(c: char) -> bool {
    c == '"' || c == '\'' || c == '-' || c == '–'
}

pub open spec fn drop_quotes_front(s: Seq<char>) -> Seq<char>
    decreases s.len(),
{
    if s.len() > 0 && quote_like(s[0]) {
        drop_quotes_front(s.drop_first())
    } else {
        s
    }
}

pub open spec fn drop_quotes_back(s: Seq<char>) -> Seq<char>
    decreases s.len(),
{
    if s.len() > 0 && quote_like(s.last()) {
        drop_quotes_back(s.drop_last())
    } else {
        s
    }
}

/// Trimmed, without quotes or dashes at the ends, trimmed again.
pub open spec fn without_quotes(v: Seq<char>) -> Seq<char> {
    trim(drop_quotes_back(drop_quotes_front(trim(v))))
}

fn trim_quotes(v: &[char]) -> (r: Vec<char>)
    ensures
        r@ == without_quotes(v@),
{
    let t = trimmed(v);
    let mut i: usize = 0;
    assert(t@.skip(0) =~= t@);
    while i < t.len() && (t[i] == '"' || t[i] == '\'' || t[i] == '-' || t[i] == '–')
        invariant
            i <= t@.len(),
            drop_quotes_front(t@) == drop_quotes_front(t@.skip(i as int)),
        decreases t@.len() - i,
    {
        assert(t@.skip(i as int).drop_first() =~= t@.skip(i + 1));
        i = i + 1;
    }
    assert(drop_quotes_front(t@.skip(i as int)) == t@.skip(i as int));
    let front = slice_vec(t.as_slice(), i, t.len());
    assert(front@ =~= t@.skip(i as int));
    let mut j: usize = front.len();
    assert(front@.take(j as int) =~= front@);
    while j > 0 && (front[j - 1] == '"' || front[j - 1] == '\'' || front[j - 1] == '-' || front[j - 1] == '–')
        invariant
            j <= front@.len(),
            drop_quotes_back(front@) == drop_quotes_back(front@.take(j as int)),
        decreases j,
    {
        assert(front@.take(j as int).drop_last() =~= front@.take(j - 1));
        j = j - 1;
    }
    assert(drop_quotes_back(front@.take(j as int)) == front@.take(j as int));
    let mid = slice_vec(front.as_slice(), 0, j);
    assert(mid@ =~= front@.take(j as int));
    trimmed(mid.as_slice())
}

/// The first name of a credit list: cut at the first `,`, else the first
/// ` & `, else the first ` feat`, and trimmed.
pub open spec fn first_credit(artist: Seq<char>) -> Seq<char> {
    match find(artist, ","@) {
        Some(i) => trim(artist.take(i)),
        None => match find(artist, " & "@) {
            Some(i) => trim(artist.take(i)),
            None => match find(artist, " feat"@) {
                Some(i) => trim(artist.take(i)),
                None => trim(artist),
            },
        },
    }
}

fn cut_at(a: &[char], mark: &str) -> (r: Option<Vec<char>>)
    ensures
        match find(a@, mark@) {
            Some(i) => r is Some && r->0@ == trim(a@.take(i)),
            None => r is None,
        },
{
    match find_chars(a, chars_of(mark).as_slice()) {
        Some(i) => {
            proof {
                crate::text::lemma_find_from(a@, mark@, 0);
            }
            let head = slice_vec(a, 0, i);
            assert(head@ =~= a@.take(i as int));
            Some(trimmed(head.as_slice()))
        },
        None => None,
    }
}

fn primary(artist: &[char]) -> (r: Vec<char>)
    ensures
        r@ == first_credit(artist@),
{
    if let Some(c) = cut_at(artist, ",") {
        return c;
    }
    if let Some(c) = cut_at(artist, " & ") {
        return c;
    }
    if let Some(c) = cut_at(artist, " feat") {
        return c;
    }
    trimmed(artist)
}

// ---------------------------------------------------------------------------
// The whole cleanup
// ---------------------------------------------------------------------------

/// The title through brackets, tail and featuring.
pub open spec fn clean_title(title: Seq<char>) -> Seq<char> {
    regex_replaced(FEATURING@, without_noise_tail(without_noise_groups(title)), ""@)
}

/// The player's artist, trimmed; blank counts as none.
pub open spec fn trimmed_artist(artist: Option<Seq<char>>) -> Option<Seq<char>> {
    match artist {
        Some(n) => if trim(n).len() > 0 {
            Some(trim(n))
        } else {
            None
        },
        None => None,
    }
}

/// The artist and title before the last touches, from the trimmed artist `a`,
/// the cleaned title `t`, whether `a` is a channel name, and `a` without its
/// channel suffix: the title's artist is trusted over a channel name or
/// nothing at all, and kept when both agree.
pub open spec fn chosen_from(a: Option<Seq<char>>, t: Seq<char>, channel: bool, unchanneled: Seq<char>) -> (
    Option<Seq<char>>,
    Seq<char>,
) {
    match dash_split(t) {
        Some((left, right)) => if a is None || channel {
            (Some(left), right)
        } else if same_name(left, a->0) {
            (Some(left), right)
        } else {
            (Some(unchanneled), t)
        },
        None => (
            match a {
                Some(_) => Some(unchanneled),
                None => None,
            },
            t,
        ),
    }
}

/// The last touches: no quotes or dashes at the ends, and only the first of
/// several credited artists; an artist that comes out blank is none.
pub open spec fn finished(chosen: (Option<Seq<char>>, Seq<char>)) -> (Option<Seq<char>>, Seq<char>) {
    (
        match chosen.0 {
            Some(n) => if first_credit(without_quotes(n)).len() > 0 {
                Some(first_credit(without_quotes(n)))
            } else {
                None
            },
            None => None,
        },
        without_quotes(chosen.1),
    )
}

/// What the cleanup settles on once the patterns have answered.
pub open spec fn settled(a: Option<Seq<char>>, t: Seq<char>, channel: bool, unchanneled: Seq<char>) -> (
    Option<Seq<char>>,
    Seq<char>,
) {
    finished(chosen_from(a, t, channel, unchanneled))
}

/// The whole cleanup, from the two strings a player gives us.
pub open spec fn cleaned(artist: Option<Seq<char>>, title: Seq<char>) -> (Option<Seq<char>>, Seq<char>) {
    let a = trimmed_artist(artist);
    settled(
        a,
        clean_title(title),
        a matches Some(n) && is_channel(n),
        match a {
            Some(n) => without_channel(n),
            None => Seq::empty(),
        },
    )
}

pub open spec fn opt_str(o: Option<&str>) -> Option<Seq<char>> {
    match o {
        Some(s) => Some(s@),
        None => None,
    }
}

pub open spec fn opt_string(o: Option<String>) -> Option<Seq<char>> {
    match o {
        Some(s) => Some(s@),
        None => None,
    }
}

fn strip_channel_suffix(name: &[char]) -> (r: Vec<char>)
    requires
        regex_compiles(CHANNEL@),
    ensures
        r@ == without_channel(name@),
{
    let t = string_of(trimmed(name).as_slice());
    match regex_replace(CHANNEL, t.as_str(), "") {
        Some(s) => trimmed(chars_of(s.as_str()).as_slice()),
        None => Vec::new(),
    }
}

/// The cleanup after the patterns have answered: `artist` as the player gave
/// it, `title` already without noise groups, noise tail and featuring,
/// `channel` whether the trimmed artist is a channel name, and `unchanneled`
/// the trimmed artist without its channel suffix.
pub fn settle(artist: Option<&str>, title: &str, channel: bool, unchanneled: &str) -> (q: Query)
    ensures
        (opt_string(q.artist), q.title@) == settled(
            trimmed_artist(opt_str(artist)),
            title@,
            channel,
            unchanneled@,
        ),
{
    let t = chars_of(title);
    let a: Option<Vec<char>> = match artist {
        Some(n) => {
            let t = trimmed(chars_of(n).as_slice());
            if t.len() > 0 {
                Some(t)
            } else {
                None
            }
        },
        None => None,
    };
    let (who, what): (Option<Vec<char>>, Vec<char>) = match split_on_dash(t.as_slice()) {
        Some((left, right)) => {
            match &a {
                None => (Some(left), right),
                Some(n) => if channel || same(left.as_slice(), n.as_slice()) {
                    (Some(left), right)
                } else {
                    (Some(chars_of(unchanneled)), t)
                },
            }
        },
        None => (
            match &a {
                Some(_) => Some(chars_of(unchanneled)),
                None => None,
            },
            t,
        ),
    };
    let artist_out = match who {
        Some(n) => {
            let p = primary(trim_quotes(n.as_slice()).as_slice());
            if p.len() > 0 {
                Some(string_of(p.as_slice()))
            } else {
                None
            }
        },
        None => None,
    };
    Query { artist: artist_out, title: string_of(trim_quotes(what.as_slice()).as_slice()) }
}

/// The whole cleanup, from the two strings a player gives us. The patterns
/// are the library's own and compile; see `clean_checked` for a caller that
/// cannot take that on trust.
pub fn clean(artist: Option<&str>, title: &str) -> (q: Query)
    requires
        patterns_compile(),
    ensures
        (opt_string(q.artist), q.title@) == cleaned(opt_str(artist), title@),
{
    let t1 = match strip_brackets(chars_of(title).as_slice()) {
        Some(t) => t,
        None => Vec::new(),
    };
    let t2 = match strip_tail(t1.as_slice()) {
        Some(t) => t,
        None => Vec::new(),
    };
    let t3 = match regex_replace(FEATURING, string_of(t2.as_slice()).as_str(), "") {
        Some(s) => s,
        None => String::new(),
    };
    assert(t3@ == clean_title(title@));
    let a: Option<Vec<char>> = match artist {
        Some(n) => {
            let t = trimmed(chars_of(n).as_slice());
            if t.len() > 0 {
                Some(t)
            } else {
                None
            }
        },
        None => None,
    };
    let (channel, unchanneled): (bool, Vec<char>) = match &a {
        Some(n) => {
            let channel = match regex_is_match(CHANNEL, string_of(trimmed(n.as_slice()).as_slice()).as_str()) {
                Some(b) => b,
                None => false,
            };
            (channel, strip_channel_suffix(n.as_slice()))
        },
        None => (false, Vec::new()),
    };
    settle(artist, t3.as_str(), channel, string_of(unchanneled.as_slice()).as_str())
}

/// `clean`, after making sure the patterns compile: `None` when one does
/// not.
pub fn clean_checked(artist: Option<&str>, title: &str) -> (q: Option<Query>)
    ensures
        q is Some <==> patterns_compile(),
        q matches Some(x) ==> (opt_string(x.artist), x.title@) == cleaned(opt_str(artist), title@),
{
    let ok = regex_is_match(NOISE, "").is_some() && regex_is_match(FEATURING, "").is_some()
        && regex_is_match(CHANNEL, "").is_some();
    if ok {
        Some(clean(artist, title))
    } else {
        None
    }
}

/// Reads a track the way a lyrics service would need it: by its first
/// artist, and its title, or nothing.
pub fn from_track(artists: &[String], title: Option<&str>) -> (q: Query)
    requires
        patterns_compile(),
    ensures
        (opt_string(q.artist), q.title@) == cleaned(
            if artists@.len() > 0 {
                Some(artists@[0]@)
            } else {
                None
            },
            match title {
                Some(t) => t@,
                None => Seq::empty(),
            },
        ),
{
    let first: Option<&str> = if artists.len() > 0 {
        Some(artists[0].as_str())
    } else {
        None
    };
    match title {
        Some(t) => clean(first, t),
        None => {
            proof {
                reveal_strlit("");
            }
            clean(first, "")
        },
    }
}

/// `from_track`, after making sure the patterns compile: `None` when one does
/// not.
pub fn from_track_checked(artists: &[String], title: Option<&str>) -> (q: Option<Query>)
    ensures
        q is Some <==> patterns_compile(),
        q matches Some(x) ==> (opt_string(x.artist), x.title@) == cleaned(
            if artists@.len() > 0 {
                Some(artists@[0]@)
            } else {
                None
            },
            match title {
                Some(t) => t@,
                None => Seq::empty(),
            },
        ),
{
    let ok = regex_is_match(NOISE, "").is_some() && regex_is_match(FEATURING, "").is_some()
        && regex_is_match(CHANNEL, "").is_some();
    if ok {
        Some(from_track(artists, title))
    } else {
        None
    }
}

/// No occurrence of `pat` anywhere in `s`: `find` sees none.
proof fn lemma_no_match_no_find(s: Seq<char>, pat: Seq<char>)
    requires
        forall|k: int| !#[trigger] matches_at(s, pat, k),
    ensures
        find(s, pat) is None,
{
    crate::text::lemma_find_from(s, pat, 0);
}

/// The first occurrence of `pat` in `s` is where `find` stops.
proof fn lemma_first_match_is_found(s: Seq<char>, pat: Seq<char>, i: int)
    requires
        matches_at(s, pat, i),
        forall|k: int| 0 <= k < i ==> !#[trigger] matches_at(s, pat, k),
    ensures
        find(s, pat) == Some(i),
{
    crate::text::lemma_find_from(s, pat, 0);
    match find(s, pat) {
        Some(f) => {
            if f < i {
                assert(matches_at(s, pat, f));
            }
            if i < f {
                assert(!matches_at(s, pat, i));
            }
        },
        None => {
            assert(!matches_at(s, pat, i));
        },
    }
}

/// A credit list with neither `,` nor ` & ` in it is cut before its first
/// ` feat`: what is searched for is the trimmed text before it.
pub proof fn law_featuring_is_cut_from_the_artist(artist: Seq<char>, i: int)
    requires
        forall|k: int| !#[trigger] matches_at(artist, ","@, k),
        forall|k: int| !#[trigger] matches_at(artist, " & "@, k),
        matches_at(artist, " feat"@, i),
        forall|k: int| 0 <= k < i ==> !#[trigger] matches_at(artist, " feat"@, k),
    ensures
        first_credit(artist) == trim(artist.take(i)),
{
    lemma_no_match_no_find(artist, ","@);
    lemma_no_match_no_find(artist, " & "@);
    lemma_first_match_is_found(artist, " feat"@, i);
}

/// Without `,` or ` & ` in the player's credit list, the artist searched for
/// never holds ` feat`.
pub proof fn law_the_searched_artist_has_no_featuring(artist: Seq<char>)
    requires
        forall|k: int| !#[trigger] matches_at(artist, ","@, k),
        forall|k: int| !#[trigger] matches_at(artist, " & "@, k),
    ensures
        find(first_credit(artist), " feat"@) is None,
{
    let pat = " feat"@;
    reveal_strlit(" feat");
    lemma_no_match_no_find(artist, ","@);
    lemma_no_match_no_find(artist, " & "@);
    crate::text::lemma_find_from(artist, pat, 0);
    let cut: int = match find(artist, pat) {
        Some(f) => f,
        None => artist.len() as int,
    };
    let head = artist.take(cut);
    if find(artist, pat) is None {
        assert(head =~= artist);
    }
    assert(0 <= cut <= artist.len());
    assert(head.len() == cut);
    assert(first_credit(artist) == trim(head));
    crate::text::lemma_skip_ws_bounds(head, 0);
    let x = crate::text::skip_ws(head, 0);
    let t0 = head.skip(x);
    crate::text::lemma_back_ws_bounds(t0, t0.len() as int);
    let y = crate::text::back_ws(t0, t0.len() as int);
    let t = trim(head);
    assert(0 <= x <= head.len());
    assert(t0.len() == head.len() - x);
    assert(0 <= y <= t0.len());
    assert(t == t0.take(y));
    assert(t.len() == y);
    assert(t =~= artist.subrange(x, x + y));
    assert forall|k: int| !#[trigger] matches_at(t, pat, k) by {
        if matches_at(t, pat, k) {
            assert(artist.subrange(x + k, x + k + pat.len()) =~= t.subrange(k, k + pat.len()));
            assert(matches_at(artist, pat, x + k));
            assert(x + k < cut);
            if let Some(f) = find(artist, pat) {
                assert(!matches_at(artist, pat, x + k));
            } else {
                assert(!matches_at(artist, pat, x + k));
            }
        }
    }
    lemma_no_match_no_find(t, pat);
}

/// A credit list is cut before its first `,`: only the first name is
/// searched for, trimmed.
pub proof fn law_a_comma_ends_the_first_credit(artist: Seq<char>, i: int)
    requires
        matches_at(artist, ","@, i),
        forall|k: int| 0 <= k < i ==> !#[trigger] matches_at(artist, ","@, k),
    ensures
        first_credit(artist) == trim(artist.take(i)),
{
    lemma_first_match_is_found(artist, ","@, i);
}

/// Without a `,`, a credit list is cut before its first ` & `.
pub proof fn law_an_ampersand_ends_the_first_credit(artist: Seq<char>, i: int)
    requires
        forall|k: int| !#[trigger] matches_at(artist, ","@, k),
        matches_at(artist, " & "@, i),
        forall|k: int| 0 <= k < i ==> !#[trigger] matches_at(artist, " & "@, k),
    ensures
        first_credit(artist) == trim(artist.take(i)),
{
    lemma_no_match_no_find(artist, ","@);
    lemma_first_match_is_found(artist, " & "@, i);
}

} // verus!
