//! The LRCLIB service: which of its answers to believe.
//!
//! LRCLIB is free, has no API key, and asks callers to identify themselves.
//! Asking it is done outside the library; here is what to make of what it
//! says.

use vstd::prelude::*;

use crate::lyrics::lrc::{holds, lemma_no_lines, lines_of, parse, read_lines};
use crate::lyrics::Lyrics;
use crate::lyrics::normalize::Query;
use crate::text::{chars_of, decimal, decimal_chars, string_of};

verus! {

/// Identifying the caller is the one thing the service asks for in return.
pub const AGENT: &'static str = "LyricsLens/0.1.0 (https://github.com/Julio0Cesar/lyricslens)";

/// How far a search result's duration may sit from the one being played, in
/// milliseconds.
pub const TOLERANCE_MS: u64 = 4000;

/// Lyrics as they came, with the text they were parsed from. The raw LRC is
/// what goes to the cache: it survives a change to the parser.
#[derive(Debug, Clone)]
pub struct Found {
    pub lyrics: Lyrics,
    pub lrc: String,
}

/// One recording as LRCLIB describes it, its duration in milliseconds.
#[derive(Debug, Clone)]
pub struct Record {
    pub track_name: String,
    pub artist_name: String,
    pub duration_ms: Option<u64>,
    pub instrumental: bool,
    pub synced_lyrics: Option<String>,
}

/// A record is worth showing when it is not instrumental and its synced
/// lyrics hold at least one timed line.
pub open spec fn usable(r: Record) -> bool {
    &&& !r.instrumental
    &&& r.synced_lyrics is Some
    &&& read_lines(lines_of(r.synced_lyrics->0@)).entries.len() > 0
}

/// The synced lyrics of a record, parsed, when it has any worth showing.
pub fn synced(record: &Record) -> (r: Option<Found>)
    ensures
        r is Some <==> usable(*record),
        r is Some ==> r->0.lrc@ == record.synced_lyrics->0@ && holds(
            r->0.lyrics,
            read_lines(lines_of(record.synced_lyrics->0@)),
        ),
{
    if record.instrumental {
        return None;
    }
    let lrc = match &record.synced_lyrics {
        Some(t) => t,
        None => return None,
    };
    let lyrics = parse(lrc.as_str());
    proof {
        lemma_no_lines(lyrics, read_lines(lines_of(lrc@)));
    }
    if lyrics.is_empty() {
        None
    } else {
        Some(Found { lyrics, lrc: string_of(chars_of(lrc.as_str()).as_slice()) })
    }
}

pub open spec fn distance(a: u64, b: u64) -> int {
    if a >= b {
        a - b
    } else {
        b - a
    }
}

/// With a duration to match: usable, with a duration, and within the
/// tolerance.
pub open spec fn in_the_running(r: Record, target: u64) -> bool {
    usable(r) && r.duration_ms is Some && distance(r.duration_ms->0, target) <= TOLERANCE_MS
}

/// The result closest in length to what is playing, the first of equals;
/// without a length, the first usable one.
pub open spec fn is_best(records: Seq<Record>, duration_ms: Option<u64>, k: int) -> bool {
    &&& 0 <= k < records.len()
    &&& match duration_ms {
        None => usable(records[k]) && forall|j: int| 0 <= j < k ==> !usable(#[trigger] records[j]),
        Some(t) => {
            &&& in_the_running(records[k], t)
            &&& forall|j: int|
                0 <= j < records.len() && in_the_running(#[trigger] records[j], t) ==> distance(
                    records[k].duration_ms->0,
                    t,
                ) <= distance(records[j].duration_ms->0, t) && (j < k ==> distance(
                    records[k].duration_ms->0,
                    t,
                ) < distance(records[j].duration_ms->0, t))
        },
    }
}

pub open spec fn none_qualifies(records: Seq<Record>, duration_ms: Option<u64>) -> bool {
    match duration_ms {
        None => forall|j: int| 0 <= j < records.len() ==> !usable(#[trigger] records[j]),
        Some(t) => forall|j: int| 0 <= j < records.len() ==> !in_the_running(#[trigger] records[j], t),
    }
}

fn distancia(a: u64, b: u64) -> (r: u64)
    ensures
        r == distance(a, b),
{
    if a >= b {
        a - b
    } else {
        b - a
    }
}

/// Picks the result closest in length to what is playing.
///
/// Search returns covers, live versions and remixes under the same name; the
/// duration is what tells one recording from another.
pub fn best(records: Vec<Record>, duration_ms: Option<u64>) -> (r: Option<Record>)
    ensures
        match r {
            Some(x) => exists|k: int| is_best(records@, duration_ms, k) && x == records@[k],
            None => none_qualifies(records@, duration_ms),
        },
{
    let mut rs = records;
    let ghost all = rs@;
    let mut pick: Option<usize> = None;
    let mut i: usize = 0;
    while i < rs.len()
        invariant
            i <= rs@.len(),
            rs@ == all,
            all == records@,
            match pick {
                Some(k) => k < i && match duration_ms {
                    None => is_best(all, duration_ms, k as int),
                    Some(t) => {
                        &&& in_the_running(all[k as int], t)
                        &&& forall|j: int|
                            0 <= j < i && in_the_running(#[trigger] all[j], t) ==> distance(
                                all[k as int].duration_ms->0,
                                t,
                            ) <= distance(all[j].duration_ms->0, t) && (j < k ==> distance(
                                all[k as int].duration_ms->0,
                                t,
                            ) < distance(all[j].duration_ms->0, t))
                    },
                },
                None => match duration_ms {
                    None => forall|j: int| 0 <= j < i ==> !usable(#[trigger] all[j]),
                    Some(t) => forall|j: int| 0 <= j < i ==> !in_the_running(#[trigger] all[j], t),
                },
            },
            duration_ms is None ==> pick is None,
        decreases rs@.len() - i,
    {
        let ok = synced(&rs[i]).is_some();
        match duration_ms {
            None => {
                if ok {
                    assert(is_best(all, duration_ms, i as int));
                    let x = rs.remove(i);
                    return Some(x);
                }
            },
            Some(t) => {
                let inside = match rs[i].duration_ms {
                    Some(d) => ok && distancia(d, t) <= TOLERANCE_MS,
                    None => false,
                };
                if inside {
                    let better = match pick {
                        None => true,
                        Some(k) => match (rs[i].duration_ms, rs[k].duration_ms) {
                            (Some(d), Some(e)) => distancia(d, t) < distancia(e, t),
                            _ => false,
                        },
                    };
                    if better {
                        pick = Some(i);
                    }
                }
            },
        }
        i = i + 1;
    }
    match pick {
        Some(k) => {
            assert(is_best(all, duration_ms, k as int));
            let x = rs.remove(k);
            Some(x)
        },
        None => None,
    }
}

// ---------------------------------------------------------------------------
// Asking
// ---------------------------------------------------------------------------

/// Which question LRCLIB is asked.
#[derive(Debug, Clone, Copy, PartialEq, Eq, Structural)]
pub enum Lookup {
    /// `/api/get`, with the exact signature of the recording.
    Exact,
    /// `/api/search`, with the artist when there is one.
    Search,
    /// `/api/search` with the title alone. Players hand over whole credit
    /// lists — "A, B, C, feat. D" — and no catalogue is indexed under those.
    TitleOnly,
}

/// What comes after an answer.
#[derive(Debug)]
pub enum Next {
    Ask(Lookup),
    /// The lyrics for what is playing, or `None` when the service has none.
    Answer(Option<Found>),
}

/// What `synced` makes of a record.
pub open spec fn synced_of(a: Option<Found>, record: Record) -> bool {
    &&& (a is Some <==> usable(record))
    &&& a is Some ==> a->0.lrc@ == record.synced_lyrics->0@ && holds(
        a->0.lyrics,
        read_lines(lines_of(record.synced_lyrics->0@)),
    )
}

/// After the answer to `asked` — the recording it settled on, if any — what
/// to do. Plain lyrics are deliberately ignored: without timestamps there is
/// nothing for the overlay to follow. A search that settled on a recording is
/// the last word; a miss on the exact signature is not, since the search is
/// more forgiving.
pub fn next(asked: Lookup, record: Option<Record>, has_artist: bool) -> (r: Next)
    ensures
        match asked {
            Lookup::Exact => match record {
                Some(rec) if usable(rec) => r matches Next::Answer(a) && synced_of(a, rec),
                _ => r matches Next::Ask(l) && l == Lookup::Search,
            },
            Lookup::Search => match record {
                Some(rec) => r matches Next::Answer(a) && synced_of(a, rec),
                None => if has_artist {
                    r matches Next::Ask(l) && l == Lookup::TitleOnly
                } else {
                    r matches Next::Answer(a) && a is None
                },
            },
            Lookup::TitleOnly => match record {
                Some(rec) => r matches Next::Answer(a) && synced_of(a, rec),
                None => r matches Next::Answer(a) && a is None,
            },
        },
{
    match asked {
        Lookup::Exact => {
            if let Some(rec) = &record {
                if let Some(found) = synced(rec) {
                    return Next::Answer(Some(found));
                }
            }
            Next::Ask(Lookup::Search)
        },
        Lookup::Search => match &record {
            Some(rec) => Next::Answer(synced(rec)),
            None => if has_artist {
                Next::Ask(Lookup::TitleOnly)
            } else {
                Next::Answer(None)
            },
        },
        Lookup::TitleOnly => match &record {
            Some(rec) => Next::Answer(synced(rec)),
            None => Next::Answer(None),
        },
    }
}

fn pair(key: &str, value: &str) -> (r: (String, String))
    ensures
        r.0@ == key@,
        r.1@ == value@,
{
    (string_of(chars_of(key).as_slice()), string_of(chars_of(value).as_slice()))
}

/// The query of `/api/get`: both names and, when the length is known, its
/// whole seconds. `/api/get` needs both names; without an artist it can only
/// miss, so there is nothing to ask.
pub fn exact_params(query: &Query, duration_ms: Option<u64>) -> (r: Option<Vec<(String, String)>>)
    ensures
        query.artist is None ==> r is None,
        query.artist matches Some(artist) ==> r matches Some(v) && {
            let p = v@.map_values(|kv: (String, String)| (kv.0@, kv.1@));
            p == seq![("artist_name"@, artist@), ("track_name"@, query.title@)] + match duration_ms {
                Some(ms) => seq![("duration"@, decimal((ms / 1000) as nat))],
                None => Seq::empty(),
            }
        },
{
    let artist = match &query.artist {
        Some(a) => a,
        None => return None,
    };
    let mut v: Vec<(String, String)> = Vec::new();
    v.push(pair("artist_name", artist.as_str()));
    v.push(pair("track_name", query.title.as_str()));
    if let Some(ms) = duration_ms {
        let seconds = decimal_chars(ms / 1000);
        let d = (string_of(chars_of("duration").as_slice()), string_of(seconds.as_slice()));
        v.push(d);
    }
    assert(v@.map_values(|kv: (String, String)| (kv.0@, kv.1@)) =~= seq![("artist_name"@, artist@), ("track_name"@, query.title@)]
        + if duration_ms is Some {
        seq![("duration"@, decimal((duration_ms->0 / 1000) as nat))]
    } else {
        Seq::empty()
    });
    Some(v)
}

/// The query of `/api/search`: the title, and the artist when there is one.
pub fn search_params(query: &Query) -> (r: Vec<(String, String)>)
    ensures
        r@.map_values(|kv: (String, String)| (kv.0@, kv.1@)) == seq![("track_name"@, query.title@)]
            + match query.artist {
            Some(a) => seq![("artist_name"@, a@)],
            None => Seq::empty(),
        },
{
    let mut v: Vec<(String, String)> = Vec::new();
    v.push(pair("track_name", query.title.as_str()));
    if let Some(a) = &query.artist {
        v.push(pair("artist_name", a.as_str()));
    }
    assert(v@.map_values(|kv: (String, String)| (kv.0@, kv.1@)) =~= seq![("track_name"@, query.title@)]
        + if query.artist is Some {
        seq![("artist_name"@, query.artist->0@)]
    } else {
        Seq::empty()
    });
    v
}

/// The same question without the artist.
pub fn title_only(query: &Query) -> (r: Query)
    ensures
        r.artist is None,
        r.title@ == query.title@,
{
    Query { artist: None, title: string_of(chars_of(query.title.as_str()).as_slice()) }
}

/// How far apart two lengths are does not depend on which is named first,
/// is never negative, and is zero only for equal lengths.
pub proof fn law_distance_is_symmetric(a: u64, b: u64)
    ensures
        distance(a, b) == distance(b, a),
        distance(a, b) >= 0,
        distance(a, b) == 0 <==> a == b,
        a >= b ==> distance(a, b) == a - b,
{
}

/// With a length to match, the pick lies within `TOLERANCE_MS` of it on
/// either side, and no usable result with a length within the tolerance is
/// strictly closer to it.
pub proof fn law_the_pick_is_the_closest_within_tolerance(records: Seq<Record>, target: u64, k: int)
    requires
        is_best(records, Some(target), k),
    ensures
        usable(records[k]),
        records[k].duration_ms is Some,
        ({
            let d = records[k].duration_ms->0;
            &&& target - TOLERANCE_MS <= d <= target + TOLERANCE_MS
            &&& forall|j: int|
                0 <= j < records.len() && usable(#[trigger] records[j]) && records[j].duration_ms is Some
                    && target - TOLERANCE_MS <= records[j].duration_ms->0 <= target + TOLERANCE_MS
                    ==> (if d >= target {
                    d - target
                } else {
                    target - d
                }) <= (if records[j].duration_ms->0 >= target {
                    records[j].duration_ms->0 - target
                } else {
                    target - records[j].duration_ms->0
                })
        }),
{
    let d = records[k].duration_ms->0;
    assert forall|j: int|
        0 <= j < records.len() && usable(#[trigger] records[j]) && records[j].duration_ms is Some
            && target - TOLERANCE_MS <= records[j].duration_ms->0 <= target + TOLERANCE_MS
            implies (if d >= target {
            d - target
        } else {
            target - d
        }) <= (if records[j].duration_ms->0 >= target {
            records[j].duration_ms->0 - target
        } else {
            target - records[j].duration_ms->0
        }) by {
        assert(in_the_running(records[j], target));
    }
}

/// With a length to match, nothing is picked only when no usable result has
/// a length within `TOLERANCE_MS` of it on either side.
pub proof fn law_nothing_is_picked_only_when_nothing_is_close(records: Seq<Record>, target: u64)
    requires
        none_qualifies(records, Some(target)),
    ensures
        forall|j: int|
            0 <= j < records.len() && usable(#[trigger] records[j]) && records[j].duration_ms is Some
                ==> !(target - TOLERANCE_MS <= records[j].duration_ms->0 <= target + TOLERANCE_MS),
{
    assert forall|j: int|
        0 <= j < records.len() && usable(#[trigger] records[j]) && records[j].duration_ms is Some
            implies !(target - TOLERANCE_MS <= records[j].duration_ms->0 <= target + TOLERANCE_MS) by {
        assert(!in_the_running(records[j], target));
    }
}

} // verus!
