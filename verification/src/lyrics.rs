//! Lyrics: where they come from, and how they are read.
//!
//! Times are whole milliseconds from the start of the song.

pub mod lrc;
pub mod lrclib;
pub mod normalize;

use vstd::prelude::*;

verus! {

/// One line of a song, anchored at the moment it should appear.
#[derive(Debug, Clone, PartialEq, Eq)]
pub struct Line {
    /// When the line starts, in milliseconds.
    pub at_ms: u64,
    pub kind: LineKind,
}

/// A blank line in an LRC file is not a line with no words: it is the moment
/// the screen has to go quiet. Spelling that out keeps the overlay from
/// leaving the last line frozen through a whole instrumental.
#[derive(Debug, Clone, PartialEq, Eq)]
pub enum LineKind {
    Sung(String),
    Instrumental,
}

/// The words of a line, or `None` for a silence.
pub open spec fn sung_of(kind: LineKind) -> Option<Seq<char>> {
    match kind {
        LineKind::Sung(text) => Some(text@),
        LineKind::Instrumental => None,
    }
}

/// A line as the contracts see it: when, and what is sung.
pub open spec fn line_view(line: Line) -> (u64, Option<Seq<char>>) {
    (line.at_ms, sung_of(line.kind))
}

pub open spec fn lines_view(lines: Seq<Line>) -> Seq<(u64, Option<Seq<char>>)> {
    lines.map_values(|l: Line| line_view(l))
}

impl Line {
    /// The words to show, or `None` while nothing is being sung.
    pub fn sung(&self) -> (r: Option<&str>)
        ensures
            r matches Some(t) ==> sung_of(self.kind) == Some(t@),
            r is None ==> sung_of(self.kind) is None,
    {
        match &self.kind {
            LineKind::Sung(text) => Some(text.as_str()),
            LineKind::Instrumental => None,
        }
    }
}

/// A whole song, in the order it is sung.
#[derive(Debug, Clone, Default, PartialEq, Eq)]
pub struct Lyrics {
    pub lines: Vec<Line>,
    /// What the file's `[offset:...]` tag asks for, in milliseconds. Positive
    /// means the lyrics run early and have to be pushed later.
    pub offset_ms: i64,
    pub title: Option<String>,
    pub artist: Option<String>,
    pub album: Option<String>,
}

/// Lines in the order they are sung: no line starts before the one above it.
pub open spec fn in_time_order(lines: Seq<Line>) -> bool {
    forall|i: int, j: int| 0 <= i <= j < lines.len() ==> lines[i].at_ms <= lines[j].at_ms
}

/// How many lines have started by `position`: the lines, counted from the
/// first, whose moment is not after it.
pub open spec fn started(lines: Seq<Line>, position: int) -> int
    decreases lines.len(),
{
    if lines.len() == 0 {
        0
    } else if lines[0].at_ms <= position {
        1 + started(lines.drop_first(), position)
    } else {
        0
    }
}

/// The position as the file's own `[offset:]` moves it.
pub open spec fn shifted(offset_ms: i64, position: int) -> int {
    if offset_ms >= 0 {
        position + offset_ms
    } else if position + offset_ms < 0 {
        0
    } else {
        position + offset_ms
    }
}

/// A list cut to at most `n` items.
pub open spec fn at_most<A>(s: Seq<A>, n: int) -> Seq<A> {
    if n < s.len() {
        s.take(n)
    } else {
        s
    }
}

pub proof fn lemma_started(lines: Seq<Line>, position: int, k: int)
    requires
        in_time_order(lines),
        0 <= k <= lines.len(),
        forall|i: int| 0 <= i < k ==> lines[i].at_ms <= position,
        forall|i: int| k <= i < lines.len() ==> lines[i].at_ms > position,
    ensures
        started(lines, position) == k,
    decreases lines.len(),
{
    if lines.len() > 0 {
        if k > 0 {
            let rest = lines.drop_first();
            assert forall|i: int| 0 <= i < k - 1 implies rest[i].at_ms <= position by {
                assert(rest[i] == lines[i + 1]);
            }
            assert forall|i: int| k - 1 <= i < rest.len() implies rest[i].at_ms > position by {
                assert(rest[i] == lines[i + 1]);
            }
            lemma_started(rest, position, k - 1);
        }
    }
}

impl Lyrics {
    pub fn is_empty(&self) -> (r: bool)
        ensures
            r == (self.lines@.len() == 0),
    {
        self.lines.len() == 0
    }

    /// Whether no line starts before the one above it.
    pub fn in_order(&self) -> (r: bool)
        ensures
            r == in_time_order(self.lines@),
    {
        let lines = &self.lines;
        let mut k: usize = 1;
        while k < lines.len()
            invariant
                lines@ == self.lines@,
                1 <= k,
                lines.len() == 0 || k <= lines.len(),
                forall|i: int, j: int| 0 <= i <= j < k && j < lines@.len() ==> lines@[i].at_ms
                    <= lines@[j].at_ms,
            decreases lines.len() - k,
        {
            if lines[k].at_ms < lines[k - 1].at_ms {
                proof {
                    let a: int = k - 1;
                    let b: int = k as int;
                    if in_time_order(lines@) {
                        assert(lines@[a].at_ms <= lines@[b].at_ms);
                    }
                }
                return false;
            }
            assert forall|i: int, j: int| 0 <= i <= j < k + 1 implies lines@[i].at_ms
                <= lines@[j].at_ms by {
                if j == k && i < k {
                    assert(lines@[i].at_ms <= lines@[k - 1].at_ms);
                }
            }
            k = k + 1;
        }
        true
    }

    /// How many lines have started at `position`, the file's offset applied.
    fn started_at(&self, position: u64) -> (k: usize)
        requires
            in_time_order(self.lines@),
        ensures
            k == started(self.lines@, shifted(self.offset_ms, position as int)),
            k <= self.lines@.len(),
    {
        let target = self.shifted(position);
        let lines = &self.lines;
        let ghost s = lines@;
        // The first line that has not started, by halving.
        let mut lo: usize = 0;
        let mut hi: usize = lines.len();
        while lo < hi
            invariant
                s == lines@,
                in_time_order(s),
                lo <= hi <= s.len(),
                forall|i: int| 0 <= i < lo ==> s[i].at_ms <= target,
                forall|i: int| hi <= i < s.len() ==> s[i].at_ms > target,
            decreases hi - lo,
        {
            let mid = lo + (hi - lo) / 2;
            if (lines[mid].at_ms as u128) <= target {
                lo = mid + 1;
            } else {
                hi = mid;
            }
        }
        proof {
            lemma_started(s, target as int, lo as int);
        }
        lo
    }

    /// The line being sung at `position`, or `None` before the first one.
    ///
    /// An instrumental gap is a line like any other here: it is found, and it
    /// has no words, which is how the screen goes quiet.
    pub fn line_at(&self, position: u64) -> (r: Option<&Line>)
        requires
            in_time_order(self.lines@),
        ensures
            ({
                let k = started(self.lines@, shifted(self.offset_ms, position as int));
                if k == 0 {
                    r is None
                } else {
                    r == Some(&self.lines@[k - 1])
                }
            }),
    {
        let k = self.started_at(position);
        if k == 0 {
            None
        } else {
            Some(&self.lines[k - 1])
        }
    }

    /// The next lines to be sung, skipping the silences.
    ///
    /// An instrumental gap is left out on purpose: showing a blank line in a
    /// list of what is coming says nothing.
    pub fn after(&self, position: u64, how_many: usize) -> (r: Vec<String>)
        requires
            in_time_order(self.lines@),
        ensures
            r@.map_values(|t: String| t@) == at_most(
                self.lines@.skip(
                    started(self.lines@, shifted(self.offset_ms, position as int)),
                ).filter_map(|l: Line| sung_of(l.kind)),
                how_many as int,
            ),
    {
        let start = self.started_at(position);
        let ghost rest = self.lines@.skip(start as int);
        let ghost wanted = rest.filter_map(|l: Line| sung_of(l.kind));
        let mut out: Vec<String> = Vec::new();
        let mut i = start;
        while i < self.lines.len() && out.len() < how_many
            invariant
                start <= i <= self.lines@.len(),
                rest == self.lines@.skip(start as int),
                wanted == rest.filter_map(|l: Line| sung_of(l.kind)),
                out@.len() <= how_many,
                out@.map_values(|t: String| t@) == rest.take(i - start).filter_map(
                    |l: Line| sung_of(l.kind),
                ),
            decreases self.lines@.len() - i,
        {
            proof {
                assert(rest.take(i + 1 - start).drop_last() =~= rest.take(i - start));
                assert(rest.take(i + 1 - start).last() == self.lines@[i as int]);
            }
            match &self.lines[i].kind {
                LineKind::Sung(text) => {
                    out.push(text.clone());
                    proof {
                        assert(out@.map_values(|t: String| t@) =~= rest.take(
                            i + 1 - start,
                        ).filter_map(|l: Line| sung_of(l.kind)));
                    }
                },
                LineKind::Instrumental => {},
            }
            i = i + 1;
        }
        proof {
            lemma_filter_map_prefix(rest, (i - start) as int, |l: Line| sung_of(l.kind));
            if i == self.lines.len() {
                assert(rest.take(i - start) =~= rest);
            }
        }
        out
    }

    /// The file's own `[offset:]`, applied to a position before looking it up.
    fn shifted(&self, position: u64) -> (r: u128)
        ensures
            r == shifted(self.offset_ms, position as int),
    {
        if self.offset_ms >= 0 {
            position as u128 + self.offset_ms as u128
        } else {
            let back = (0i128 - self.offset_ms as i128) as u128;
            if (position as u128) < back {
                0
            } else {
                position as u128 - back
            }
        }
    }
}

/// What a prefix keeps is a prefix of what the whole keeps, and it grows one
/// item at a time.
pub proof fn lemma_filter_map_prefix<A, B>(s: Seq<A>, n: int, f: spec_fn(A) -> Option<B>)
    requires
        0 <= n <= s.len(),
    ensures
        s.take(n).filter_map(f).len() <= s.filter_map(f).len(),
        s.take(n).filter_map(f) == s.filter_map(f).take(s.take(n).filter_map(f).len() as int),
    decreases s.len() - n,
{
    if n < s.len() {
        lemma_filter_map_prefix(s, n + 1, f);
        assert(s.take(n + 1).drop_last() =~= s.take(n));
        let a = s.take(n).filter_map(f);
        let b = s.take(n + 1).filter_map(f);
        let w = s.filter_map(f);
        assert(b == w.take(b.len() as int));
        match f(s[n]) {
            Some(x) => {
                assert(b == a + seq![x]);
                assert(a =~= b.take(a.len() as int));
                assert(a =~= w.take(a.len() as int));
            },
            None => {},
        }
    } else {
        assert(s.take(n) =~= s);
        assert(s.filter_map(f).take(s.filter_map(f).len() as int) =~= s.filter_map(f));
    }
}

/// The later the position, the more lines have started: the song never
/// goes back to a line it left.
pub proof fn law_started_only_grows(lines: Seq<Line>, p1: int, p2: int)
    requires
        p1 <= p2,
    ensures
        0 <= started(lines, p1) <= started(lines, p2),
    decreases lines.len(),
{
    if lines.len() > 0 {
        law_started_only_grows(lines.drop_first(), p1, p2);
        law_started_only_grows(lines.drop_first(), p2, p2);
    }
}

/// A line holds until the next one starts: between two positions with no
/// line starting in between, the same lines have started.
pub proof fn law_a_line_holds_until_the_next(lines: Seq<Line>, p1: int, p2: int)
    requires
        p1 <= p2,
        forall|i: int| 0 <= i < lines.len() ==> !(p1 < #[trigger] lines[i].at_ms <= p2),
    ensures
        started(lines, p1) == started(lines, p2),
    decreases lines.len(),
{
    if lines.len() > 0 {
        let rest = lines.drop_first();
        assert(!(p1 < lines[0].at_ms <= p2));
        assert forall|i: int| 0 <= i < rest.len() implies !(p1 < #[trigger] rest[i].at_ms <= p2) by {
            assert(rest[i] == lines[i + 1]);
        }
        law_a_line_holds_until_the_next(rest, p1, p2);
    }
}

} // verus!
