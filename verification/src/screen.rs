//! What the overlay is showing, and everything it takes to decide that.
//!
//! The window asks for the words on screen ten times a second; the worker
//! hands over what it learned about the player and the lyrics. Both meet
//! here. Instants are milliseconds on a monotonic clock, as the clock has them.

use vstd::prelude::*;

use crate::lyrics::{at_most, in_time_order, shifted, started, sung_of, Line, Lyrics};
use crate::store::settings::Settings;
use crate::sync::clock::{since, Anchor, Clock, Reading};
use crate::sync::Playback;
use crate::text::{chars_of, decimal, decimal_chars, extend, string_of};

verus! {

/// How long the overlay is allowed to explain itself before going quiet.
///
/// A message about the search is worth a moment and no more: past that, an
/// overlay saying it is still looking is just words on the screen with no
/// song under them. The preferences window keeps the answer.
pub const GRACE_MS: u64 = 4000;

/// What the worker tells the overlay.
#[derive(Debug)]
pub enum Update {
    /// Another track is playing. `empty` means there is no player at all, so
    /// there is nothing to look up and nothing to wait for.
    TrackChanged { title: Option<String>, empty: bool },
    /// The player went playing, paused or stopped.
    Playback(Playback),
    /// A `Position` reading, and the instant it was taken.
    Position { reading_ms: u64, at_ms: u64 },
    /// The player answers, but its position never moves.
    PositionStalled,
    /// Which player is being followed, by bus name. The manual offset is kept
    /// per player, so the overlay needs to know whose it is.
    Player(String),
    /// The lyrics for the track playing now, or nothing found.
    Lyrics(Option<Lyrics>),
}

/// What the overlay is showing, and everything it takes to decide that.
pub struct State {
    settings: Settings,
    hide_when_paused: bool,
    upcoming_lines: u8,
    title: Option<String>,
    empty: bool,
    lyrics: Option<Lyrics>,
    clock: Clock,
    /// When the track changed, which is when a message about it stops being
    /// news.
    since: u64,
    /// What the preferences window says about the lyrics for this track.
    report: String,
    playing: bool,
    stalled: bool,
    /// True between a track change and the answer about its lyrics, so the
    /// overlay can tell "still looking" from "there are none".
    searching: bool,
}

/// The name a track goes by on screen.
pub open spec fn title_text(title: Option<Seq<char>>) -> Seq<char> {
    match title {
        Some(t) => t,
        None => "unknown track"@,
    }
}

/// What the preferences window says once lyrics with `n` lines arrived.
pub open spec fn following(n: nat) -> Seq<char> {
    "Following "@ + decimal(n) + " lines."@
}

/// What the preferences window says about the answer for this track.
pub open spec fn answer_report(lyrics: Option<Lyrics>) -> Seq<char> {
    match lyrics {
        Some(l) => following(l.lines@.len()),
        None => "No synced lyrics found for this one."@,
    }
}

/// What the clock becomes when the player changes state, as the clock
/// promises it.
pub open spec fn clock_played(before: Clock, after: Clock, state: Playback, now: u64) -> bool {
    &&& after.state() == state
    &&& after.offset() == before.offset()
    &&& after.last_reading() == if state == Playback::Stopped && before.state() != state {
        None
    } else {
        before.last_reading()
    }
    &&& before.state() == state ==> after.anchor() == before.anchor() && after.frozen()
        == before.frozen()
    &&& before.state() != state && state == Playback::Paused ==> after.frozen() == before.raw_at(
        now,
    ) && after.anchor() == before.anchor()
    &&& before.state() != state && state == Playback::Playing ==> after.frozen() is None
        && after.anchor() == match before.frozen() {
        Some(position) => Some(Anchor { at: now, position }),
        None => before.anchor(),
    }
    &&& before.state() != state && state == Playback::Stopped ==> after.anchor() is None
        && after.frozen() is None
}

/// What the clock becomes when a reading arrives, as the clock promises it.
pub open spec fn clock_sampled(before: Clock, after: Clock, reading: u64, now: u64) -> bool {
    let r = before.classify(reading, now);
    &&& after.state() == before.state()
    &&& after.offset() == before.offset()
    &&& r == Reading::Steady ==> after.anchor() == before.anchor() && after.last_reading()
        == before.last_reading() && after.frozen() == before.frozen()
    &&& r != Reading::Steady ==> after.anchor() == Some(Anchor { at: now, position: reading })
        && after.last_reading() == Some(reading) && after.frozen() is None
}

/// What the clock becomes when the track changes: it forgets the song.
pub open spec fn clock_forgot(before: Clock, after: Clock) -> bool {
    &&& after.anchor() is None
    &&& after.last_reading() is None
    &&& after.frozen() is None
    &&& after.state() == before.state()
    &&& after.offset() == before.offset()
}

impl State {
    #[verifier::type_invariant]
    spec fn lyrics_in_order(self) -> bool {
        self.lyrics matches Some(l) ==> in_time_order(l.lines@)
    }

    pub closed spec fn offsets(&self) -> Map<Seq<char>, i64> {
        self.settings.offsets()
    }

    pub closed spec fn hides_when_paused(&self) -> bool {
        self.hide_when_paused
    }

    pub closed spec fn upcoming_count(&self) -> u8 {
        self.upcoming_lines
    }

    pub closed spec fn title(&self) -> Option<Seq<char>> {
        match self.title {
            Some(t) => Some(t@),
            None => None,
        }
    }

    pub closed spec fn empty(&self) -> bool {
        self.empty
    }

    pub closed spec fn lyrics(&self) -> Option<Lyrics> {
        self.lyrics
    }

    pub closed spec fn clock(&self) -> Clock {
        self.clock
    }

    pub closed spec fn since(&self) -> u64 {
        self.since
    }

    pub closed spec fn report_view(&self) -> Seq<char> {
        self.report@
    }

    pub closed spec fn playing(&self) -> bool {
        self.playing
    }

    pub closed spec fn stalled(&self) -> bool {
        self.stalled
    }

    pub closed spec fn searching(&self) -> bool {
        self.searching
    }

    /// The words on screen at `now`.
    pub open spec fn shown(&self, now: u64) -> Option<Seq<char>> {
        if self.empty() {
            None
        } else if self.hides_when_paused() && !self.playing() {
            None
        } else if self.lyrics() is Some && self.clock().position_at(now) is Some {
            let lyrics = self.lyrics()->0;
            let k = started(
                lyrics.lines@,
                shifted(lyrics.offset_ms, self.clock().position_at(now)->0 as int),
            );
            if k == 0 {
                None
            } else {
                sung_of(lyrics.lines@[k - 1].kind)
            }
        } else if self.stalled() {
            Some(
                title_text(self.title()) + "  ·  this player does not report its position"@,
            )
        } else if since(now, self.since()) >= GRACE_MS {
            None
        } else {
            let reason = if self.searching() {
                "looking for the lyrics…"@
            } else if self.lyrics() is None {
                "no synced lyrics for this one"@
            } else {
                "waiting for the player"@
            };
            Some(title_text(self.title()) + "  ·  "@ + reason)
        }
    }

    /// The lines still to come at `now`, one more than the settings show.
    pub open spec fn coming(&self, now: u64) -> Seq<Seq<char>> {
        if self.lyrics() is Some && self.clock().position_at(now) is Some {
            let lyrics = self.lyrics()->0;
            at_most(
                lyrics.lines@.skip(
                    started(
                        lyrics.lines@,
                        shifted(lyrics.offset_ms, self.clock().position_at(now)->0 as int),
                    ),
                ).filter_map(|l: Line| sung_of(l.kind)),
                self.upcoming_count() + 1,
            )
        } else {
            Seq::empty()
        }
    }

    /// A state with no track, no lyrics and a stopped clock; the track is news
    /// from `now`.
    pub fn new(settings: Settings, hide_when_paused: bool, upcoming_lines: u8, now: u64) -> (s:
        Self)
        ensures
            s.offsets() == settings.offsets(),
            s.hides_when_paused() == hide_when_paused,
            s.upcoming_count() == upcoming_lines,
            s.title() is None,
            s.empty(),
            s.lyrics() is None,
            s.clock().anchor() is None,
            s.clock().last_reading() is None,
            s.clock().frozen() is None,
            s.clock().state() == Playback::Stopped,
            s.clock().offset() == 0,
            s.since() == now,
            s.report_view() == Seq::<char>::empty(),
            !s.playing(),
            !s.stalled(),
            !s.searching(),
    {
        State {
            settings,
            hide_when_paused,
            upcoming_lines,
            title: None,
            empty: true,
            lyrics: None,
            clock: Clock::new(0),
            since: now,
            report: String::new(),
            playing: false,
            stalled: false,
            searching: false,
        }
    }

    /// Takes new settings, as the preferences window writes them.
    pub fn reload(&mut self, settings: Settings, hide_when_paused: bool, upcoming_lines: u8)
        ensures
            final(self).offsets() == settings.offsets(),
            final(self).hides_when_paused() == hide_when_paused,
            final(self).upcoming_count() == upcoming_lines,
            final(self).title() == old(self).title(),
            final(self).empty() == old(self).empty(),
            final(self).lyrics() == old(self).lyrics(),
            final(self).clock() == old(self).clock(),
            final(self).since() == old(self).since(),
            final(self).report_view() == old(self).report_view(),
            final(self).playing() == old(self).playing(),
            final(self).stalled() == old(self).stalled(),
            final(self).searching() == old(self).searching(),
    {
        proof {
            use_type_invariant(&*self);
        }
        self.settings = settings;
        self.hide_when_paused = hide_when_paused;
        self.upcoming_lines = upcoming_lines;
    }

    /// What the preferences window says about the lyrics for this track.
    pub fn report(&self) -> (r: &str)
        ensures
            r@ == self.report_view(),
    {
        self.report.as_str()
    }

    /// The clock, leaving a fresh one in its place until it is put back.
    fn take_clock(&mut self) -> (clock: Clock)
        ensures
            clock == old(self).clock(),
            final(self).offsets() == old(self).offsets(),
            final(self).hides_when_paused() == old(self).hides_when_paused(),
            final(self).upcoming_count() == old(self).upcoming_count(),
            final(self).title() == old(self).title(),
            final(self).empty() == old(self).empty(),
            final(self).lyrics() == old(self).lyrics(),
            final(self).since() == old(self).since(),
            final(self).report_view() == old(self).report_view(),
            final(self).playing() == old(self).playing(),
            final(self).stalled() == old(self).stalled(),
            final(self).searching() == old(self).searching(),
    {
        proof {
            use_type_invariant(&*self);
        }
        let mut clock = Clock::new(0);
        std::mem::swap(&mut clock, &mut self.clock);
        clock
    }

    /// Takes in what the worker learned, at `now`.
    pub fn apply(&mut self, update: Update, now: u64)
        requires
            update matches Update::Lyrics(Some(l)) ==> in_time_order(l.lines@),
        ensures
            final(self).offsets() == old(self).offsets(),
            final(self).hides_when_paused() == old(self).hides_when_paused(),
            final(self).upcoming_count() == old(self).upcoming_count(),
            match update {
                Update::Lyrics(lyrics) => {
                    &&& final(self).lyrics() == lyrics
                    &&& !final(self).searching()
                    &&& final(self).report_view() == answer_report(lyrics)
                    &&& final(self).title() == old(self).title()
                    &&& final(self).empty() == old(self).empty()
                    &&& final(self).clock() == old(self).clock()
                    &&& final(self).since() == old(self).since()
                    &&& final(self).playing() == old(self).playing()
                    &&& final(self).stalled() == old(self).stalled()
                },
                Update::Player(name) => {
                    &&& final(self).clock().offset() == if old(self).offsets().contains_key(
                        name@,
                    ) {
                        old(self).offsets()[name@]
                    } else {
                        0
                    }
                    &&& final(self).clock().anchor() == old(self).clock().anchor()
                    &&& final(self).clock().last_reading() == old(self).clock().last_reading()
                    &&& final(self).clock().state() == old(self).clock().state()
                    &&& final(self).clock().frozen() == old(self).clock().frozen()
                    &&& final(self).lyrics() == old(self).lyrics()
                    &&& final(self).searching() == old(self).searching()
                    &&& final(self).report_view() == old(self).report_view()
                    &&& final(self).title() == old(self).title()
                    &&& final(self).empty() == old(self).empty()
                    &&& final(self).since() == old(self).since()
                    &&& final(self).playing() == old(self).playing()
                    &&& final(self).stalled() == old(self).stalled()
                },
                Update::TrackChanged { title, empty } => {
                    &&& final(self).title() == match title {
                        Some(t) => Some(t@),
                        None => None::<Seq<char>>,
                    }
                    &&& final(self).empty() == empty
                    &&& final(self).playing() == (!empty && old(self).playing())
                    &&& final(self).searching() == !empty
                    &&& final(self).since() == now
                    &&& final(self).report_view() == if empty {
                        Seq::<char>::empty()
                    } else {
                        "Looking…"@
                    }
                    &&& final(self).lyrics() is None
                    &&& !final(self).stalled()
                    &&& clock_forgot(old(self).clock(), final(self).clock())
                },
                Update::Playback(state) => {
                    &&& final(self).playing() == (state == Playback::Playing)
                    &&& !final(self).stalled()
                    &&& clock_played(old(self).clock(), final(self).clock(), state, now)
                    &&& final(self).lyrics() == old(self).lyrics()
                    &&& final(self).searching() == old(self).searching()
                    &&& final(self).report_view() == old(self).report_view()
                    &&& final(self).title() == old(self).title()
                    &&& final(self).empty() == old(self).empty()
                    &&& final(self).since() == old(self).since()
                },
                Update::Position { reading_ms, at_ms } => {
                    &&& clock_sampled(old(self).clock(), final(self).clock(), reading_ms, at_ms)
                    &&& final(self).lyrics() == old(self).lyrics()
                    &&& final(self).searching() == old(self).searching()
                    &&& final(self).report_view() == old(self).report_view()
                    &&& final(self).title() == old(self).title()
                    &&& final(self).empty() == old(self).empty()
                    &&& final(self).since() == old(self).since()
                    &&& final(self).playing() == old(self).playing()
                    &&& final(self).stalled() == old(self).stalled()
                },
                Update::PositionStalled => {
                    &&& final(self).stalled()
                    &&& final(self).clock() == old(self).clock()
                    &&& final(self).lyrics() == old(self).lyrics()
                    &&& final(self).searching() == old(self).searching()
                    &&& final(self).report_view() == old(self).report_view()
                    &&& final(self).title() == old(self).title()
                    &&& final(self).empty() == old(self).empty()
                    &&& final(self).since() == old(self).since()
                    &&& final(self).playing() == old(self).playing()
                },
            },
    {
        proof {
            use_type_invariant(&*self);
        }
        match update {
            Update::Lyrics(lyrics) => {
                let report = match &lyrics {
                    Some(found) => {
                        let mut out = chars_of("Following ");
                        extend(&mut out, &decimal_chars(found.lines.len() as u64));
                        extend(&mut out, &chars_of(" lines."));
                        string_of(&out)
                    },
                    None => {
                        let out = chars_of("No synced lyrics found for this one.");
                        string_of(&out)
                    },
                };
                self.lyrics = lyrics;
                self.searching = false;
                self.report = report;
            },
            Update::Player(name) => {
                let offset = self.settings.offset_ms(name.as_str());
                let mut clock = self.take_clock();
                clock.set_offset_ms(offset);
                self.clock = clock;
            },
            Update::TrackChanged { title, empty } => {
                // An empty track means no player at all, so there is nothing
                // to look up and nothing to wait for.
                if empty {
                    self.playing = false;
                }
                self.searching = !empty;
                self.since = now;
                self.report = if self.searching {
                    string_of(&chars_of("Looking…"))
                } else {
                    String::new()
                };
                self.title = title;
                self.empty = empty;
                self.lyrics = None;
                self.stalled = false;
                let mut clock = self.take_clock();
                clock.reset();
                self.clock = clock;
            },
            Update::Playback(state) => {
                self.playing = state == Playback::Playing;
                self.stalled = false;
                let mut clock = self.take_clock();
                clock.playback(state, now);
                self.clock = clock;
            },
            Update::Position { reading_ms, at_ms } => {
                let mut clock = self.take_clock();
                clock.sample(reading_ms, at_ms);
                self.clock = clock;
            },
            Update::PositionStalled => {
                self.stalled = true;
            },
        }
    }

    /// The lines still to come.
    ///
    /// One more than the settings show: the overlay needs the line after the
    /// last visible one ready to climb into its place.
    pub fn upcoming(&self, now: u64) -> (r: Vec<String>)
        ensures
            r@.map_values(|t: String| t@) == self.coming(now),
    {
        proof {
            use_type_invariant(self);
        }
        let wanted = self.upcoming_lines as usize + 1;
        match (&self.lyrics, self.clock.position(now)) {
            (Some(lyrics), Some(position)) => lyrics.after(position, wanted),
            _ => {
                let none: Vec<String> = Vec::new();
                assert(none@.map_values(|t: String| t@) =~= Seq::<Seq<char>>::empty());
                none
            },
        }
    }

    /// The words on screen at `now`.
    ///
    /// When there are no lyrics to follow, the overlay says why instead of
    /// staying blank — a blank overlay and a broken one look identical.
    pub fn line(&self, now: u64) -> (r: Option<String>)
        ensures
            r matches Some(t) ==> self.shown(now) == Some(t@),
            r is None ==> self.shown(now) is None,
    {
        proof {
            use_type_invariant(self);
        }
        if self.empty {
            return None;
        }
        if self.hide_when_paused && !self.playing {
            return None;
        }
        let position = self.clock.position(now);
        if let (Some(lyrics), Some(position)) = (&self.lyrics, position) {
            // None here is an instrumental gap, which is meant to be silent.
            return match lyrics.line_at(position) {
                Some(line) => match line.sung() {
                    Some(words) => Some(string_of(&chars_of(words))),
                    None => None,
                },
                None => None,
            };
        }
        let mut out = match &self.title {
            Some(title) => chars_of(title.as_str()),
            None => chars_of("unknown track"),
        };
        // A player that reports no position is a standing fact, not news: it
        // will not change while this song plays, and nothing will ever appear.
        if self.stalled {
            extend(&mut out, &chars_of("  ·  this player does not report its position"));
            return Some(string_of(&out));
        }
        // Everything else is news, and news goes quiet. The preferences window
        // is where the answer lives from then on.
        let elapsed = if now >= self.since {
            now - self.since
        } else {
            0
        };
        if elapsed >= GRACE_MS {
            return None;
        }
        let reason = if self.searching {
            chars_of("looking for the lyrics…")
        } else if self.lyrics.is_none() {
            chars_of("no synced lyrics for this one")
        } else {
            chars_of("waiting for the player")
        };
        extend(&mut out, &chars_of("  ·  "));
        extend(&mut out, &reason);
        Some(string_of(&out))
    }
}

/// While the lyrics of a new track are looked for, the overlay says so, for
/// the grace period and no longer: what `apply` leaves after a track change
/// is what `line` reads.
pub proof fn law_a_new_track_is_looked_for(s: State, now: u64, t: u64)
    requires
        !s.empty(),
        s.searching(),
        !s.stalled(),
        s.lyrics() is None,
        s.since() == now,
        !s.hides_when_paused() || s.playing(),
    ensures
        now <= t < now + GRACE_MS ==> s.shown(t) == Some(
            title_text(s.title()) + "  ·  "@ + "looking for the lyrics…"@,
        ),
        t >= now + GRACE_MS ==> s.shown(t) is None,
{
}

} // verus!
