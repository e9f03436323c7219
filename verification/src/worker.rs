//! The worker that follows the player and looks the lyrics up.
//!
//! The bus and the network are driven outside the library; what the worker
//! decides is here: which player, and what each reading of it tells the
//! overlay.

use vstd::prelude::*;

use crate::screen::Update;
use crate::sync::{playback_of, Playback};
use crate::text::{same_text, trim, trimmed, chars_of};

verus! {

/// How long to wait before looking for a player again, in milliseconds.
pub const RETRY_MS: u64 = 2000;

/// Names the player to follow, over whatever the settings say.
pub const OVERRIDE: &'static str = "LYRICSLENS_PLAYER";

/// Which player to follow: the variable wins over the file, since it is how a
/// single run is pointed at a different player without editing anything. An
/// empty variable counts as unset.
pub fn wanted(variable: Option<String>, setting: Option<String>) -> (r: Option<String>)
    ensures
        match variable {
            Some(v) if v@.len() > 0 => r == Some(v),
            _ => r == setting,
        },
{
    match variable {
        Some(v) if v.unicode_len() > 0 => Some(v),
        _ => setting,
    }
}

/// What a player says it is playing.
#[derive(Debug, Clone)]
pub struct Playing {
    pub title: Option<String>,
    pub artists: Vec<String>,
    pub length_ms: Option<u64>,
}

pub open spec fn opt_text(o: Option<String>) -> Option<Seq<char>> {
    match o {
        Some(s) => Some(s@),
        None => None,
    }
}

pub open spec fn artists_view(v: Seq<String>) -> Seq<Seq<char>> {
    v.map_values(|a: String| a@)
}

/// The same track: title, artists and length, compared by their text.
pub open spec fn same_playing(a: Playing, b: Playing) -> bool {
    &&& opt_text(a.title) == opt_text(b.title)
    &&& artists_view(a.artists@) == artists_view(b.artists@)
    &&& a.length_ms == b.length_ms
}

/// Nothing the overlay could look up: no title and no artist.
pub open spec fn empty_playing(p: Playing) -> bool {
    p.title is None && p.artists@.len() == 0
}

/// Whole milliseconds from MPRIS microseconds, none below zero.
pub open spec fn micros_to_ms(micros: i64) -> u64 {
    if micros <= 0 {
        0
    } else {
        (micros / 1000) as u64
    }
}

fn ms_of_micros(micros: i64) -> (r: u64)
    ensures
        r == micros_to_ms(micros),
{
    if micros <= 0 {
        0
    } else {
        (micros / 1000) as u64
    }
}

impl Playing {
    /// From the metadata's fields: a title that is only blank is no title,
    /// and the length comes in microseconds.
    pub fn from_fields(title: Option<String>, artists: Vec<String>, length_micros: Option<i64>) -> (r:
        Self)
        ensures
            opt_text(r.title) == match title {
                Some(t) => if trim(t@).len() > 0 {
                    Some(t@)
                } else {
                    None
                },
                None => None,
            },
            artists_view(r.artists@) == artists_view(artists@),
            r.length_ms == match length_micros {
                Some(m) => Some(micros_to_ms(m)),
                None => None,
            },
    {
        let title = match title {
            Some(t) => if trimmed(chars_of(t.as_str()).as_slice()).len() > 0 {
                Some(t)
            } else {
                None
            },
            None => None,
        };
        let length_ms = match length_micros {
            Some(m) => Some(ms_of_micros(m)),
            None => None,
        };
        Playing { title, artists, length_ms }
    }

    /// Nothing the overlay could look up.
    pub fn is_empty(&self) -> (r: bool)
        ensures
            r == empty_playing(*self),
    {
        self.title.is_none() && self.artists.len() == 0
    }

    /// The same track as `other`.
    pub fn same_as(&self, other: &Playing) -> (r: bool)
        ensures
            r == same_playing(*self, *other),
    {
        let titles = match (&self.title, &other.title) {
            (Some(a), Some(b)) => same_text(a.as_str(), b.as_str()),
            (None, None) => true,
            _ => false,
        };
        if !titles || self.length_ms != other.length_ms || self.artists.len() != other.artists.len() {
            proof {
                if artists_view(self.artists@) == artists_view(other.artists@) {
                    assert(artists_view(self.artists@).len() == self.artists@.len());
                }
            }
            return false;
        }
        let mut i: usize = 0;
        while i < self.artists.len()
            invariant
                i <= self.artists@.len(),
                self.artists@.len() == other.artists@.len(),
                forall|j: int| 0 <= j < i ==> self.artists@[j]@ == other.artists@[j]@,
            decreases self.artists@.len() - i,
        {
            if !same_text(self.artists[i].as_str(), other.artists[i].as_str()) {
                proof {
                    assert(artists_view(self.artists@)[i as int] != artists_view(other.artists@)[i as int]);
                }
                return false;
            }
            i = i + 1;
        }
        assert(artists_view(self.artists@) =~= artists_view(other.artists@));
        true
    }
}

/// What the worker remembers of the player between two readings.
pub struct Follower {
    /// The track of the last reading.
    pub last: Option<Playing>,
    /// The `PlaybackStatus` of the last reading.
    pub status: Option<String>,
    /// Whether the overlay was told that the position cannot be read.
    pub stalled: bool,
}

/// What a reading tells.
pub struct Reading {
    /// Another track: the lookup for the previous one is worthless now, and
    /// one starts for this track.
    pub new_track: bool,
    /// What to tell the overlay, in this order.
    pub updates: Vec<Update>,
}

impl Follower {
    /// Nothing read yet.
    pub fn new() -> (f: Self)
        ensures
            f.last is None,
            f.status is None,
            !f.stalled,
    {
        Follower { last: None, status: None, stalled: false }
    }

    /// One reading of the player at `at_ms`: the track, the status, and the
    /// position in microseconds or `None` when it cannot be read.
    ///
    /// Another track clears the lyrics and is announced; a status that
    /// changed is announced; a position is passed on; a position that cannot
    /// be read is announced once per track.
    pub fn read(&mut self, playing: Playing, status: &str, position: Option<i64>, at_ms: u64) -> (r:
        Reading)
        ensures
            ({
                let nova = !(old(self).last matches Some(l) && same_playing(l, playing));
                let mudou = !(old(self).status matches Some(s) && s@ == status@);
                let parado = if nova {
                    false
                } else {
                    old(self).stalled
                };
                let k0: int = if nova {
                    2
                } else {
                    0
                };
                let k1: int = k0 + if mudou {
                    1int
                } else {
                    0
                };
                let avisa_posicao = position is Some || !parado;
                &&& r.new_track == nova
                &&& r.updates@.len() == k1 + if avisa_posicao {
                    1int
                } else {
                    0
                }
                &&& nova ==> (r.updates@[0] matches Update::Lyrics(l) && l is None)
                &&& nova ==> (r.updates@[1] matches Update::TrackChanged { title, empty } && opt_text(
                    title,
                ) == opt_text(playing.title) && empty == empty_playing(playing))
                &&& mudou ==> r.updates@[k0] == Update::Playback(playback_of(status@))
                &&& position matches Some(m) ==> r.updates@[k1] == (Update::Position {
                    reading_ms: micros_to_ms(m),
                    at_ms,
                })
                &&& (position is None && !parado) ==> r.updates@[k1] is PositionStalled
                &&& final(self).last == Some(playing)
                &&& final(self).status matches Some(s) && s@ == status@
                &&& final(self).stalled == (position is None || parado)
            }),
    {
        let mut updates: Vec<Update> = Vec::new();
        let nova = match &self.last {
            Some(l) => !l.same_as(&playing),
            None => true,
        };
        if nova {
            updates.push(Update::Lyrics(None));
            let title = match &playing.title {
                Some(t) => Some(t.clone()),
                None => None,
            };
            updates.push(Update::TrackChanged { title, empty: playing.is_empty() });
            self.stalled = false;
        }
        let mudou = match &self.status {
            Some(s) => !same_text(s.as_str(), status),
            None => true,
        };
        if mudou {
            updates.push(Update::Playback(Playback::from_mpris(status)));
        }
        match position {
            Some(m) => {
                updates.push(Update::Position { reading_ms: ms_of_micros(m), at_ms });
            },
            None => {
                if !self.stalled {
                    updates.push(Update::PositionStalled);
                    self.stalled = true;
                }
            },
        }
        self.last = Some(playing);
        self.status = Some(crate::text::string_of(chars_of(status).as_slice()));
        Reading { new_track: nova, updates }
    }
}

} // verus!
