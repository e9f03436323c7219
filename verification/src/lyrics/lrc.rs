//! Reading the LRC format.
//!
//! LRC is a text file where each line carries one or more timestamps:
//!
//! ```text
//! [ti:Song]
//! [offset:+500]
//! [00:12.34]first line
//! [00:20.00][01:30.00]a chorus sung twice
//! ```
//!
//! Files in the wild are not clean. Parsing never fails: a line that makes no
//! sense is dropped, and what is left is still singable.

use vstd::prelude::*;

use crate::lyrics::{in_time_order, line_view, lines_view, Line, LineKind, Lyrics};
use crate::text::{
    all_digits, all_digits_chars, ascii_lower_seq, ascii_lowercase, chars_of, eq_chars,
    index_of, index_of_char, index_of_from, is_digit, lemma_index_of_from,
    lemma_skip_ws_bounds, parse_i64, parse_i64_chars, parse_u64, parse_u64_chars, skip_ws,
    unsigned_digits, lemma_digits_below, pow10,
    skip_ws_from, slice_vec, string_of, strip_leading, strip_leading_chars, trim, trimmed,
};

verus! {

// ---------------------------------------------------------------------------
// What a file says, as the contracts read it
// ---------------------------------------------------------------------------

/// One line of the song: when, and the words (`None` for a silence).
pub type Entry = (u64, Option<Seq<char>>);

/// What one `[...]` group turned out to be.
pub enum TagView {
    Time(u64),
    Meta(Seq<char>, Seq<char>),
    Unknown,
}

/// Everything read so far: the lines in file order, and the header.
pub struct LrcView {
    pub entries: Seq<Entry>,
    pub offset_ms: i64,
    pub title: Option<Seq<char>>,
    pub artist: Option<Seq<char>>,
    pub album: Option<Seq<char>>,
}

pub open spec fn empty_view() -> LrcView {
    LrcView { entries: Seq::empty(), offset_ms: 0, title: None, artist: None, album: None }
}

/// A line ending in `\r\n` loses the `\r` too.
pub open spec fn strip_cr(s: Seq<char>) -> Seq<char> {
    if s.len() > 0 && s.last() == '\r' {
        s.drop_last()
    } else {
        s
    }
}

/// `str::lines` from character `pos` on: split at `\n`, a `\r` before it
/// dropped, and no empty line after a final `\n`.
pub open spec fn lines_from(s: Seq<char>, pos: int) -> Seq<Seq<char>>
    decreases s.len() - pos,
{
    if pos < 0 || pos >= s.len() {
        Seq::empty()
    } else {
        match index_of_from(s, '\n', pos) {
            Some(k) => if pos <= k < s.len() {
                seq![strip_cr(s.subrange(pos, k))] + lines_from(s, k + 1)
            } else {
                Seq::empty()
            },
            None => seq![s.subrange(pos, s.len() as int)],
        }
    }
}

/// `str::lines`.
pub open spec fn lines_of(s: Seq<char>) -> Seq<Seq<char>> {
    lines_from(s, 0)
}

/// The leading `[...]` groups from `pos` on, and the text after them. An
/// unclosed bracket ends the groups.
pub open spec fn peel_from(s: Seq<char>, pos: int) -> (Seq<Seq<char>>, Seq<char>)
    decreases s.len() - pos,
{
    if 0 <= pos < s.len() && s[pos] == '[' {
        match index_of_from(s, ']', pos + 1) {
            Some(e) => if pos < e < s.len() {
                let (tags, rest) = peel_from(s, e + 1);
                (seq![s.subrange(pos + 1, e)] + tags, rest)
            } else {
                (Seq::empty(), s.subrange(pos, s.len() as int))
            },
            None => (Seq::empty(), s.subrange(pos, s.len() as int)),
        }
    } else if 0 <= pos <= s.len() {
        (Seq::empty(), s.subrange(pos, s.len() as int))
    } else {
        (Seq::empty(), Seq::empty())
    }
}

/// The tags of a line and the words after them.
pub open spec fn split_tags(line: Seq<char>) -> (Seq<Seq<char>>, Seq<char>) {
    peel_from(line, skip_ws(line, 0))
}

/// Where a fraction starts: the first `.` or `:`.
pub open spec fn index_of_dot_or_colon(s: Seq<char>, i: int) -> Option<int>
    decreases s.len() - i,
{
    if i < 0 || i >= s.len() {
        None
    } else if s[i] == '.' || s[i] == ':' {
        Some(i)
    } else {
        index_of_dot_or_colon(s, i + 1)
    }
}

/// The milliseconds a fraction of a second stands for: absent, or one to
/// three digits.
pub open spec fn fraction_ms(f: Seq<char>) -> Option<int> {
    if f.len() == 0 {
        Some(0)
    } else if all_digits(f) {
        match parse_u64(f) {
            Some(v) => if f.len() == 1 {
                Some(v * 100)
            } else if f.len() == 2 {
                Some(v * 10)
            } else if f.len() == 3 {
                Some(v as int)
            } else {
                None
            },
            None => None,
        }
    } else {
        None
    }
}

/// `mm` and `ss.xx`, as a time in milliseconds. Seconds run below sixty; a
/// time too large for 64 bits is not a time.
pub open spec fn read_time(minutes: Seq<char>, seconds: Seq<char>) -> Option<u64> {
    match parse_u64(trim(minutes)) {
        None => None,
        Some(m) => {
            let (whole, fraction) = match index_of_dot_or_colon(seconds, 0) {
                Some(k) => (seconds.take(k), seconds.skip(k + 1)),
                None => (seconds, Seq::empty()),
            };
            match parse_u64(trim(whole)) {
                None => None,
                Some(w) => if w >= 60 {
                    None
                } else {
                    match fraction_ms(trim(fraction)) {
                        None => None,
                        Some(ms) => {
                            let total = (m * 60 + w) * 1000 + ms;
                            if total <= u64::MAX {
                                Some(total as u64)
                            } else {
                                None
                            }
                        },
                    }
                },
            }
        },
    }
}

/// A timestamp starts with a digit; a metadata key does not.
pub open spec fn read_tag(tag: Seq<char>) -> TagView {
    match index_of(tag, ':') {
        None => TagView::Unknown,
        Some(k) => {
            let left = tag.take(k);
            let right = tag.skip(k + 1);
            if left.len() > 0 && is_digit(left[0]) {
                match read_time(left, right) {
                    Some(at) => TagView::Time(at),
                    None => TagView::Unknown,
                }
            } else {
                TagView::Meta(ascii_lower_seq(trim(left)), trim(right))
            }
        },
    }
}

/// A header value, when there is one.
pub open spec fn non_empty(value: Seq<char>) -> Option<Seq<char>> {
    if trim(value).len() == 0 {
        None
    } else {
        Some(trim(value))
    }
}

/// What a `[key:value]` tag does to the header.
pub open spec fn apply_meta(v: LrcView, key: Seq<char>, value: Seq<char>) -> LrcView {
    if key == seq!['t', 'i'] {
        LrcView { title: non_empty(value), ..v }
    } else if key == seq!['a', 'r'] {
        LrcView { artist: non_empty(value), ..v }
    } else if key == seq!['a', 'l'] {
        LrcView { album: non_empty(value), ..v }
    } else if key == seq!['o', 'f', 'f', 's', 'e', 't'] {
        match parse_i64(strip_leading(value, '+')) {
            Some(n) => LrcView { offset_ms: n, ..v },
            None => v,
        }
    } else {
        v
    }
}

/// The header after every tag of a line, in order.
pub open spec fn apply_tags(v: LrcView, tags: Seq<Seq<char>>) -> LrcView
    decreases tags.len(),
{
    if tags.len() == 0 {
        v
    } else {
        let before = apply_tags(v, tags.drop_last());
        match read_tag(tags.last()) {
            TagView::Meta(key, value) => apply_meta(before, key, value),
            _ => before,
        }
    }
}

/// The times among a line's tags, in order.
pub open spec fn stamps(tags: Seq<Seq<char>>) -> Seq<u64>
    decreases tags.len(),
{
    if tags.len() == 0 {
        Seq::empty()
    } else {
        match read_tag(tags.last()) {
            TagView::Time(at) => stamps(tags.drop_last()).push(at),
            _ => stamps(tags.drop_last()),
        }
    }
}

/// The words of a line: nothing left means an instrumental gap.
pub open spec fn words(rest: Seq<char>) -> Option<Seq<char>> {
    if trim(rest).len() == 0 {
        None
    } else {
        Some(trim(rest))
    }
}

/// One line of the file read into what came before it. A line with no tag
/// at all is dropped.
pub open spec fn read_line(v: LrcView, line: Seq<char>) -> LrcView {
    let (tags, rest) = split_tags(line);
    if tags.len() == 0 {
        v
    } else {
        let w = apply_tags(v, tags);
        LrcView {
            entries: w.entries + stamps(tags).map_values(|at: u64| (at, words(rest))),
            ..w
        }
    }
}

/// Every line of the file, in file order.
pub open spec fn read_lines(lines: Seq<Seq<char>>) -> LrcView
    decreases lines.len(),
{
    if lines.len() == 0 {
        empty_view()
    } else {
        read_line(read_lines(lines.drop_last()), lines.last())
    }
}

/// Whether a line starts at `t`.
pub open spec fn starts_at(t: u64) -> spec_fn(Entry) -> bool {
    |e: Entry| e.0 == t
}

/// The lines that start at `t`, in their order.
pub open spec fn at_time(s: Seq<Entry>, t: u64) -> Seq<Entry> {
    s.filter(starts_at(t))
}

/// `out` is `entries` in time order, and lines that share a moment keep the
/// order they had: a stable sort by time.
pub open spec fn stably_sorted(out: Seq<Entry>, entries: Seq<Entry>) -> bool {
    &&& forall|i: int, j: int| 0 <= i <= j < out.len() ==> out[i].0 <= out[j].0
    &&& forall|t: u64| #[trigger] at_time(out, t) == at_time(entries, t)
}

pub open spec fn opt_view(o: Option<String>) -> Option<Seq<char>> {
    match o {
        Some(s) => Some(s@),
        None => None,
    }
}

/// The lyrics hold what the file said, in time order.
pub open spec fn holds(lyrics: Lyrics, v: LrcView) -> bool {
    &&& stably_sorted(lines_view(lyrics.lines@), v.entries)
    &&& lyrics.offset_ms == v.offset_ms
    &&& opt_view(lyrics.title) == v.title
    &&& opt_view(lyrics.artist) == v.artist
    &&& opt_view(lyrics.album) == v.album
}

// ---------------------------------------------------------------------------
// Facts
// ---------------------------------------------------------------------------

proof fn lemma_at_time_has(s: Seq<Entry>, i: int)
    requires
        0 <= i < s.len(),
    ensures
        at_time(s, s[i].0).len() > 0,
{
    s.lemma_filter_contains(starts_at(s[i].0), i);
}

/// The lyrics hold no line exactly when the file had none.
pub proof fn lemma_no_lines(lyrics: Lyrics, v: LrcView)
    requires
        holds(lyrics, v),
    ensures
        lyrics.lines@.len() == 0 <==> v.entries.len() == 0,
{
    let out = lines_view(lyrics.lines@);
    assert(out.len() == lyrics.lines@.len());
    reveal(Seq::filter);
    if out.len() > 0 {
        lemma_at_time_has(out, 0);
        assert(at_time(out, out[0].0) == at_time(v.entries, out[0].0));
        if v.entries.len() == 0 {
            assert(at_time(v.entries, out[0].0) =~= Seq::<Entry>::empty());
        }
    }
    if v.entries.len() > 0 {
        lemma_at_time_has(v.entries, 0);
        assert(at_time(out, v.entries[0].0) == at_time(v.entries, v.entries[0].0));
        if out.len() == 0 {
            assert(at_time(out, v.entries[0].0) =~= Seq::<Entry>::empty());
        }
    }
}

proof fn lemma_filter_none(s: Seq<Entry>, t: u64)
    requires
        forall|i: int| 0 <= i < s.len() ==> s[i].0 != t,
    ensures
        at_time(s, t) == Seq::<Entry>::empty(),
    decreases s.len(),
{
    reveal(Seq::filter);
    if s.len() > 0 {
        lemma_filter_none(s.drop_last(), t);
    }
}

/// Putting a line in after every line not later than it keeps the order and
/// keeps each moment's lines in arrival order.
proof fn lemma_insert(out: Seq<Entry>, k: int, x: Entry)
    requires
        forall|i: int, j: int| 0 <= i <= j < out.len() ==> out[i].0 <= out[j].0,
        0 <= k <= out.len(),
        forall|i: int| 0 <= i < k ==> out[i].0 <= x.0,
        forall|i: int| k <= i < out.len() ==> out[i].0 > x.0,
    ensures
        forall|i: int, j: int|
            0 <= i <= j < out.insert(k, x).len() ==> out.insert(k, x)[i].0 <= out.insert(
                k,
                x,
            )[j].0,
        forall|t: u64|
            #[trigger] at_time(out.insert(k, x), t) == if t == x.0 {
                at_time(out, t).push(x)
            } else {
                at_time(out, t)
            },
{
    let a = out.take(k);
    let b = out.skip(k);
    assert(out =~= a + b);
    assert(out.insert(k, x) =~= a + seq![x] + b);
    assert forall|t: u64|
        #[trigger] at_time(out.insert(k, x), t) == if t == x.0 {
            at_time(out, t).push(x)
        } else {
            at_time(out, t)
        } by {
        let p = starts_at(t);
        Seq::filter_distributes_over_add(a + seq![x], b, p);
        Seq::filter_distributes_over_add(a, seq![x], p);
        Seq::filter_distributes_over_add(a, b, p);
        reveal(Seq::filter);
        assert(seq![x].drop_last() =~= Seq::<Entry>::empty());
        if t == x.0 {
            assert forall|i: int| 0 <= i < b.len() implies b[i].0 != t by {
                assert(b[i] == out[k + i]);
            }
            lemma_filter_none(b, t);
            assert(at_time(b, t) =~= Seq::<Entry>::empty());
            assert(at_time(out, t) == at_time(a, t) + at_time(b, t));
            assert(at_time(out, t) =~= at_time(a, t));
            assert(at_time(a + seq![x], t) =~= at_time(a, t).push(x));
            assert(at_time(out.insert(k, x), t) =~= at_time(a, t).push(x) + Seq::<
                Entry,
            >::empty());
        } else {
            assert(!p(x));
            assert(seq![x].filter(p) == seq![x].drop_last().filter(p));
            assert(Seq::<Entry>::empty().filter(p) =~= Seq::<Entry>::empty());
            assert(at_time(seq![x], t) =~= Seq::<Entry>::empty());
            assert(at_time(a + seq![x], t) =~= at_time(a, t));
        }
    }
}

proof fn lemma_push_entries(s: Seq<Entry>, e: Entry)
    ensures
        forall|t: u64|
            #[trigger] at_time(s.push(e), t) == if t == e.0 {
                at_time(s, t).push(e)
            } else {
                at_time(s, t)
            },
{
    assert forall|t: u64|
        #[trigger] at_time(s.push(e), t) == if t == e.0 {
            at_time(s, t).push(e)
        } else {
            at_time(s, t)
        } by {
        reveal(Seq::filter);
        assert(s.push(e).drop_last() =~= s);
    }
}

// ---------------------------------------------------------------------------
// Reading
// ---------------------------------------------------------------------------

enum Tag {
    Time(u64),
    Meta(Vec<char>, Vec<char>),
    Unknown,
}

spec fn tag_view(t: Tag) -> TagView {
    match t {
        Tag::Time(at) => TagView::Time(at),
        Tag::Meta(k, v) => TagView::Meta(k@, v@),
        Tag::Unknown => TagView::Unknown,
    }
}

/// Reads a whole LRC file.
pub fn parse(input: &str) -> (lyrics: Lyrics)
    ensures
        holds(lyrics, read_lines(lines_of(input@))),
        in_time_order(lyrics.lines@),
{
    let s = chars_of(input);
    let mut lyrics = Lyrics {
        lines: Vec::new(),
        offset_ms: 0,
        title: None,
        artist: None,
        album: None,
    };
    let ghost mut done: Seq<Seq<char>> = Seq::empty();
    proof {
        assert(lines_view(lyrics.lines@) =~= Seq::<Entry>::empty());
        assert forall|t: u64| #[trigger]
            at_time(lines_view(lyrics.lines@), t) == at_time(read_lines(done).entries, t) by {
            reveal(Seq::filter);
        }
    }
    let mut pos: usize = 0;
    while pos < s.len()
        invariant
            pos <= s@.len(),
            s@ == input@,
            lines_of(s@) == done + lines_from(s@, pos as int),
            holds(lyrics, read_lines(done)),
            in_time_order(lyrics.lines@),
        decreases s@.len() - pos,
    {
        proof {
            lemma_index_of_from(s@, '\n', pos as int);
        }
        let (end, next) = match index_of_char(s.as_slice(), '\n', pos) {
            Some(k) => (k, k + 1),
            None => (s.len(), s.len()),
        };
        let mut line = slice_vec(s.as_slice(), pos, end);
        if end < s.len() && line.len() > 0 && line[line.len() - 1] == '\r' {
            line.pop();
        }
        let ghost before = done;
        proof {
            assert(line@ == lines_from(s@, pos as int)[0]);
            assert(lines_from(s@, pos as int) =~= seq![line@] + lines_from(s@, next as int))
                by {
                if next == s@.len() {
                    assert(lines_from(s@, next as int) =~= Seq::<Seq<char>>::empty());
                }
            }
            done = done.push(line@);
            assert(done.drop_last() =~= before);
            assert(lines_of(s@) =~= done + lines_from(s@, next as int));
        }
        read_one(&mut lyrics, line.as_slice(), Ghost(read_lines(before)));
        pos = next;
    }
    proof {
        assert(lines_from(s@, pos as int) =~= Seq::<Seq<char>>::empty());
        assert(done =~= lines_of(s@));
    }
    lyrics
}

/// Reads one line into the lyrics so far.
fn read_one(lyrics: &mut Lyrics, line: &[char], Ghost(v): Ghost<LrcView>)
    requires
        holds(*old(lyrics), v),
        in_time_order(old(lyrics).lines@),
    ensures
        holds(*final(lyrics), read_line(v, line@)),
        in_time_order(final(lyrics).lines@),
{
    let (tags, rest) = split_line(line);
    if tags.len() == 0 {
        return;
    }
    let ghost tags_v = split_tags(line@).0;
    let mut times: Vec<u64> = Vec::new();
    let ghost mut w = v;
    let mut i: usize = 0;
    while i < tags.len()
        invariant
            i <= tags@.len(),
            tags@.len() == tags_v.len(),
            forall|j: int| 0 <= j < tags_v.len() ==> #[trigger] tags@[j]@ == tags_v[j],
            w == apply_tags(v, tags_v.take(i as int)),
            holds(*lyrics, w),
            w.entries == v.entries,
            times@ == stamps(tags_v.take(i as int)),
            in_time_order(lyrics.lines@),
        decreases tags@.len() - i,
    {
        proof {
            assert(tags_v.take(i + 1).drop_last() =~= tags_v.take(i as int));
            assert(tags_v.take(i + 1).last() == tags_v[i as int]);
        }
        match read_tag_chars(tags[i].as_slice()) {
            Tag::Time(at) => {
                times.push(at);
            },
            Tag::Meta(key, value) => {
                apply_meta_to(lyrics, key.as_slice(), value.as_slice(), Ghost(w));
                proof {
                    w = apply_meta(w, key@, value@);
                }
            },
            Tag::Unknown => {},
        }
        i = i + 1;
    }
    proof {
        assert(tags_v.take(tags_v.len() as int) =~= tags_v);
    }
    let text = trimmed(rest.as_slice());
    let mut k: usize = 0;
    let ghost base = w.entries;
    let ghost mut added: Seq<Entry> = Seq::empty();
    let ghost kind_v = words(split_tags(line@).1);
    while k < times.len()
        invariant
            k <= times@.len(),
            text@ == trim(split_tags(line@).1),
            kind_v == words(split_tags(line@).1),
            added == times@.take(k as int).map_values(|at: u64| (at, kind_v)),
            stably_sorted(lines_view(lyrics.lines@), base + added),
            in_time_order(lyrics.lines@),
            lyrics.offset_ms == w.offset_ms,
            opt_view(lyrics.title) == w.title,
            opt_view(lyrics.artist) == w.artist,
            opt_view(lyrics.album) == w.album,
        decreases times@.len() - k,
    {
        let kind = if text.len() == 0 {
            LineKind::Instrumental
        } else {
            LineKind::Sung(string_of(text.as_slice()))
        };
        let at = times[k];
        let ghost entry: Entry = (at, kind_v);
        let new_line = Line { at_ms: at, kind };
        assert(line_view(new_line) == entry);
        let place = place_for(&lyrics.lines, at);
        let ghost old_view = lines_view(lyrics.lines@);
        lyrics.lines.insert(place, new_line);
        proof {
            let prev_added = added;
            assert(lines_view(lyrics.lines@) =~= old_view.insert(place as int, entry));
            lemma_insert(old_view, place as int, entry);
            lemma_push_entries(base + added, entry);
            added = added.push(entry);
            assert((base + prev_added).push(entry) =~= base + added);
            assert forall|t: u64| #[trigger]
                at_time(lines_view(lyrics.lines@), t) == at_time(base + added, t) by {
                assert(at_time(old_view, t) == at_time(base + prev_added, t));
                assert(at_time((base + prev_added).push(entry), t) == at_time(base + added, t));
            }
            assert(times@.take(k + 1) =~= times@.take(k as int).push(at));
            assert(added =~= times@.take(k + 1).map_values(|at: u64| (at, kind_v)));
            assert forall|i: int, j: int|
                0 <= i <= j < lyrics.lines@.len() implies lyrics.lines@[i].at_ms
                <= lyrics.lines@[j].at_ms by {
                assert(lines_view(lyrics.lines@)[i].0 == lyrics.lines@[i].at_ms);
                assert(lines_view(lyrics.lines@)[j].0 == lyrics.lines@[j].at_ms);
            }
        }
        k = k + 1;
    }
    proof {
        assert(times@.take(times@.len() as int) =~= times@);
    }
}

/// After every line that starts no later than `at`.
fn place_for(lines: &Vec<Line>, at: u64) -> (k: usize)
    requires
        in_time_order(lines@),
    ensures
        k <= lines@.len(),
        forall|i: int| 0 <= i < k ==> lines@[i].at_ms <= at,
        forall|i: int| k <= i < lines@.len() ==> lines@[i].at_ms > at,
{
    let mut k = lines.len();
    while k > 0 && lines[k - 1].at_ms > at
        invariant
            k <= lines@.len(),
            in_time_order(lines@),
            forall|i: int| k <= i < lines@.len() ==> lines@[i].at_ms > at,
        decreases k,
    {
        k = k - 1;
    }
    k
}

/// Peels the leading `[...]` groups off a line and returns them with the rest.
fn split_line(line: &[char]) -> (r: (Vec<Vec<char>>, Vec<char>))
    ensures
        r.0@.len() == split_tags(line@).0.len(),
        forall|j: int| 0 <= j < r.0@.len() ==> #[trigger] r.0@[j]@ == split_tags(line@).0[j],
        r.1@ == split_tags(line@).1,
{
    let start = skip_ws_from(line, 0);
    proof {
        lemma_skip_ws_bounds(line@, 0);
    }
    let mut tags: Vec<Vec<char>> = Vec::new();
    let mut pos = start;
    let ghost whole = split_tags(line@);
    loop
        invariant_except_break
            start <= pos <= line@.len(),
            whole == split_tags(line@),
            whole.1 == peel_from(line@, pos as int).1,
            whole.0.len() == tags@.len() + peel_from(line@, pos as int).0.len(),
            forall|j: int| 0 <= j < tags@.len() ==> #[trigger] tags@[j]@ == whole.0[j],
            forall|j: int|
                0 <= j < peel_from(line@, pos as int).0.len() ==> whole.0[tags@.len() + j]
                    == #[trigger] peel_from(line@, pos as int).0[j],
        ensures
            pos <= line@.len(),
            whole == split_tags(line@),
            whole.1 == line@.subrange(pos as int, line@.len() as int),
            whole.0.len() == tags@.len(),
            forall|j: int| 0 <= j < tags@.len() ==> #[trigger] tags@[j]@ == whole.0[j],
        decreases line@.len() - pos,
    {
        if pos < line.len() && line[pos] == '[' {
            proof {
                lemma_index_of_from(line@, ']', pos + 1);
            }
            match index_of_char(line, ']', pos + 1) {
                Some(e) => {
                    let tag = slice_vec(line, pos + 1, e);
                    proof {
                        let p = peel_from(line@, (e + 1) as int);
                        assert(peel_from(line@, pos as int).0 == seq![tag@] + p.0);
                        assert forall|j: int| 0 <= j < p.0.len() implies whole.0[tags@.len() + 1
                            + j] == #[trigger] p.0[j] by {
                            assert(peel_from(line@, pos as int).0[1 + j] == p.0[j]);
                        }
                        assert(whole.0[tags@.len() as int] == peel_from(line@, pos as int).0[0]);
                    }
                    tags.push(tag);
                    pos = e + 1;
                },
                None => {
                    assert(peel_from(line@, pos as int).0.len() == 0);
                    assert(peel_from(line@, pos as int).1 == line@.subrange(
                        pos as int,
                        line@.len() as int,
                    ));
                    break ;
                },
            }
        } else {
            assert(peel_from(line@, pos as int).0.len() == 0);
            assert(peel_from(line@, pos as int).1 == line@.subrange(
                pos as int,
                line@.len() as int,
            ));
            break ;
        }
    }
    let rest = slice_vec(line, pos, line.len());
    (tags, rest)
}

/// What one `[...]` group is.
fn read_tag_chars(tag: &[char]) -> (r: Tag)
    ensures
        tag_view(r) == read_tag(tag@),
{
    let n = tag.len();
    match index_of_char(tag, ':', 0) {
        None => Tag::Unknown,
        Some(k) => {
            proof {
                lemma_index_of_from(tag@, ':', 0);
            }
            let left = slice_vec(tag, 0, k);
            let right = slice_vec(tag, k + 1, n);
            proof {
                assert(left@ =~= tag@.take(k as int));
                assert(right@ =~= tag@.skip(k + 1));
            }
            if left.len() > 0 && '0' <= left[0] && left[0] <= '9' {
                match read_time_chars(left.as_slice(), right.as_slice()) {
                    Some(at) => Tag::Time(at),
                    None => Tag::Unknown,
                }
            } else {
                let key = ascii_lowercase(trimmed(left.as_slice()).as_slice());
                let value = trimmed(right.as_slice());
                Tag::Meta(key, value)
            }
        },
    }
}

/// `mm` and `ss.xx`, where the fraction may be absent, two digits or three.
fn read_time_chars(minutes: &[char], seconds: &[char]) -> (r: Option<u64>)
    ensures
        r == read_time(minutes@, seconds@),
{
    let m = match parse_u64_chars(trimmed(minutes).as_slice()) {
        Some(m) => m,
        None => return None,
    };
    let mut k: usize = 0;
    while k < seconds.len() && seconds[k] != '.' && seconds[k] != ':'
        invariant
            k <= seconds@.len(),
            index_of_dot_or_colon(seconds@, 0) == index_of_dot_or_colon(seconds@, k as int),
        decreases seconds@.len() - k,
    {
        k = k + 1;
    }
    let (whole, fraction) = if k < seconds.len() {
        let whole = slice_vec(seconds, 0, k);
        let fraction = slice_vec(seconds, k + 1, seconds.len());
        assert(whole@ =~= seconds@.take(k as int));
        assert(fraction@ =~= seconds@.skip(k + 1));
        (whole, fraction)
    } else {
        let whole = slice_vec(seconds, 0, seconds.len());
        assert(whole@ =~= seconds@);
        (whole, Vec::new())
    };
    let w = match parse_u64_chars(trimmed(whole.as_slice()).as_slice()) {
        Some(w) => w,
        None => return None,
    };
    if w >= 60 {
        return None;
    }
    let f = trimmed(fraction.as_slice());
    let millis: u64 = if f.len() == 0 {
        0
    } else if all_digits_chars(f.as_slice()) {
        match parse_u64_chars(f.as_slice()) {
            Some(value) => {
                proof {
                    assert(is_digit(f@[0]));
                    assert(unsigned_digits(f@) == f@);
                    lemma_digits_below(f@);
                    reveal_with_fuel(pow10, 4);
                }
                if f.len() == 1 {
                    value * 100
                } else if f.len() == 2 {
                    value * 10
                } else if f.len() == 3 {
                    value
                } else {
                    return None;
                }
            },
            None => return None,
        }
    } else {
        return None;
    };
    assert(millis <= u64::MAX);
    let base = match m.checked_mul(60) {
        Some(x) => x.checked_add(w),
        None => None,
    };
    let total = match base {
        Some(b) => match b.checked_mul(1000) {
            Some(x) => x.checked_add(millis),
            None => None,
        },
        None => None,
    };
    total
}

/// What a `[key:value]` tag does to the header.
fn apply_meta_to(lyrics: &mut Lyrics, key: &[char], value: &[char], Ghost(v): Ghost<LrcView>)
    requires
        holds(*old(lyrics), v),
        in_time_order(old(lyrics).lines@),
    ensures
        holds(*final(lyrics), apply_meta(v, key@, value@)),
        final(lyrics).lines == old(lyrics).lines,
        in_time_order(final(lyrics).lines@),
{
    if eq_chars(key, &['t', 'i']) {
        assert(key@ == seq!['t', 'i']);
        lyrics.title = non_empty_chars(value);
    } else if eq_chars(key, &['a', 'r']) {
        assert(key@ == seq!['a', 'r']);
        lyrics.artist = non_empty_chars(value);
    } else if eq_chars(key, &['a', 'l']) {
        assert(key@ == seq!['a', 'l']);
        lyrics.album = non_empty_chars(value);
    } else if eq_chars(key, &['o', 'f', 'f', 's', 'e', 't']) {
        assert(key@ == seq!['o', 'f', 'f', 's', 'e', 't']);
        // The plus sign is allowed and means the same as no sign at all.
        let digits = strip_leading_chars(value, '+');
        match parse_i64_chars(digits.as_slice()) {
            Some(offset) => {
                lyrics.offset_ms = offset;
            },
            None => {},
        }
    } else {
        assert(key@ != seq!['t', 'i']);
        assert(key@ != seq!['a', 'r']);
        assert(key@ != seq!['a', 'l']);
        assert(key@ != seq!['o', 'f', 'f', 's', 'e', 't']);
    }
}

fn non_empty_chars(value: &[char]) -> (r: Option<String>)
    ensures
        opt_view(r) == non_empty(value@),
{
    let t = trimmed(value);
    if t.len() == 0 {
        None
    } else {
        Some(string_of(t.as_slice()))
    }
}

} // verus!
