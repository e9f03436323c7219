//! The clock that says where the song is between readings.
//!
//! Browsers report `Position` rounded down to whole seconds, so a reading
//! carries up to a second of error and is useless on its own. The moment the
//! integer flips, though, the real position is known exactly — that instant is
//! the anchor, and from there time is counted locally.
//!
//! `Position` has no change signal by specification, so it has to be read on a
//! timer. Everything here is driven by those readings and stays testable
//! without a bus. Instants are milliseconds on a monotonic clock; positions are
//! milliseconds into the song.

use vstd::prelude::*;

use crate::sync::Playback;

verus! {

/// Beyond this, the reading and the estimate are not describing the same play.
pub const SEEK_MS: u64 = 250;

/// The width of one quantised reading.
pub const STEP_MS: u64 = 1000;

/// What a reading turned out to be.
#[derive(Debug, Clone, Copy, PartialEq, Eq, Structural)]
pub enum Reading {
    /// The integer flipped: the position is known exactly, and time restarts here.
    Edge,
    /// The position jumped. Someone dragged the bar, or the track changed.
    Seek,
    /// Nothing new; the estimate still holds.
    Steady,
}

/// A position known exactly at an instant.
#[derive(Debug, Clone, Copy, PartialEq, Eq, Structural)]
pub struct Anchor {
    pub at: u64,
    pub position: u64,
}

#[derive(Debug)]
pub struct Clock {
    anchor: Option<Anchor>,
    last_reading: Option<u64>,
    state: Playback,
    /// Where the song stopped, while it is not playing.
    frozen: Option<u64>,
    /// Manual correction for this player, in milliseconds. Positive means the
    /// lyrics run early and have to wait.
    offset_ms: i64,
}

/// Milliseconds from `earlier` to `later`, or none if `later` came first.
pub open spec fn since(later: u64, earlier: u64) -> int {
    if later >= earlier {
        later - earlier
    } else {
        0
    }
}

/// A number held to what 64 bits can count.
pub open spec fn capped(x: int) -> u64 {
    if x > u64::MAX {
        u64::MAX
    } else if x < 0 {
        0
    } else {
        x as u64
    }
}

/// Where an anchor says the song is at `now`.
pub open spec fn estimate(anchor: Anchor, now: u64) -> u64 {
    capped(anchor.position + since(now, anchor.at))
}

/// `a` and `b` apart.
pub open spec fn apart(a: u64, b: u64) -> int {
    if a >= b {
        a - b
    } else {
        b - a
    }
}

/// A positive offset means the lyrics arrive early, so the position moves back.
pub open spec fn shift(position: u64, offset_ms: i64) -> u64 {
    capped(position - offset_ms)
}

impl Clock {
    pub closed spec fn anchor(&self) -> Option<Anchor> {
        self.anchor
    }

    pub closed spec fn last_reading(&self) -> Option<u64> {
        self.last_reading
    }

    pub closed spec fn state(&self) -> Playback {
        self.state
    }

    pub closed spec fn frozen(&self) -> Option<u64> {
        self.frozen
    }

    pub closed spec fn offset(&self) -> i64 {
        self.offset_ms
    }

    /// Where the song is at `now`, before the manual offset.
    pub open spec fn raw_at(&self, now: u64) -> Option<u64> {
        if self.state() != Playback::Playing {
            self.frozen()
        } else {
            match self.anchor() {
                Some(anchor) => Some(estimate(anchor, now)),
                None => None,
            }
        }
    }

    /// Where the song is at `now`, the manual offset applied.
    pub open spec fn position_at(&self, now: u64) -> Option<u64> {
        match self.raw_at(now) {
            Some(p) => Some(shift(p, self.offset())),
            None => None,
        }
    }

    /// What a reading means, given what the clock already knew.
    pub open spec fn classify(&self, reading: u64, now: u64) -> Reading {
        match self.anchor() {
            None => Reading::Edge,
            Some(anchor) => {
                let guess = estimate(anchor, now);
                if reading % 1000 != 0 {
                    // A player that reports sub-second detail is not guessing.
                    if apart(guess, reading) > SEEK_MS {
                        Reading::Seek
                    } else {
                        Reading::Edge
                    }
                } else {
                    match self.last_reading() {
                        Some(last) if last != reading => {
                            if reading == last + STEP_MS {
                                Reading::Edge
                            } else {
                                Reading::Seek
                            }
                        },
                        _ => if guess + SEEK_MS < reading || guess > reading + STEP_MS + SEEK_MS {
                            Reading::Seek
                        } else {
                            Reading::Steady
                        },
                    }
                }
            },
        }
    }

    pub fn new(offset_ms: i64) -> (clock: Self)
        ensures
            clock.anchor() is None,
            clock.last_reading() is None,
            clock.state() == Playback::Stopped,
            clock.frozen() is None,
            clock.offset() == offset_ms,
    {
        Self {
            anchor: None,
            last_reading: None,
            state: Playback::Stopped,
            frozen: None,
            offset_ms,
        }
    }

    pub fn set_offset_ms(&mut self, offset_ms: i64)
        ensures
            final(self).offset() == offset_ms,
            final(self).anchor() == old(self).anchor(),
            final(self).last_reading() == old(self).last_reading(),
            final(self).state() == old(self).state(),
            final(self).frozen() == old(self).frozen(),
    {
        self.offset_ms = offset_ms;
    }

    /// Forgets the song. Called when the track changes.
    pub fn reset(&mut self)
        ensures
            final(self).anchor() is None,
            final(self).last_reading() is None,
            final(self).frozen() is None,
            final(self).state() == old(self).state(),
            final(self).offset() == old(self).offset(),
    {
        self.anchor = None;
        self.last_reading = None;
        self.frozen = None;
    }

    /// Follows the player between playing, paused and stopped.
    pub fn playback(&mut self, state: Playback, now: u64)
        ensures
            final(self).state() == state,
            final(self).offset() == old(self).offset(),
            final(self).last_reading() == if state == Playback::Stopped && old(self).state()
                != state {
                None
            } else {
                old(self).last_reading()
            },
            old(self).state() == state ==> final(self).anchor() == old(self).anchor()
                && final(self).frozen() == old(self).frozen(),
            old(self).state() != state && state == Playback::Paused ==> final(self).frozen()
                == old(self).raw_at(now) && final(self).anchor() == old(self).anchor(),
            old(self).state() != state && state == Playback::Playing ==> final(self).frozen()
                is None && final(self).anchor() == match old(self).frozen() {
                Some(position) => Some(Anchor { at: now, position }),
                None => old(self).anchor(),
            },
            old(self).state() != state && state == Playback::Stopped ==> final(self).anchor()
                is None && final(self).frozen() is None,
    {
        if state == self.state {
            return;
        }
        match state {
            // Freeze where the song stands, so a pause does not let the
            // estimate run on without it.
            Playback::Paused => self.frozen = self.raw_position(now),
            Playback::Playing => {
                if let Some(position) = self.frozen.take() {
                    self.anchor = Some(Anchor { at: now, position });
                }
            },
            Playback::Stopped => self.reset(),
        }
        self.state = state;
    }

    /// Feeds one `Position` reading and says what it meant.
    ///
    /// Whatever it meant, the clock knows the reading came: every answer but
    /// `Steady` re-anchors on it, at `now`.
    pub fn sample(&mut self, reading: u64, now: u64) -> (r: Reading)
        ensures
            r == old(self).classify(reading, now),
            final(self).state() == old(self).state(),
            final(self).offset() == old(self).offset(),
            r == Reading::Steady ==> final(self).anchor() == old(self).anchor()
                && final(self).last_reading() == old(self).last_reading()
                && final(self).frozen() == old(self).frozen(),
            r != Reading::Steady ==> final(self).anchor() == Some(
                Anchor { at: now, position: reading },
            ) && final(self).last_reading() == Some(reading) && final(self).frozen() is None,
    {
        // A player that reports sub-second detail is not guessing: take it.
        let exact = reading % 1000 != 0;

        let anchor = match self.anchor {
            Some(anchor) => anchor,
            None => {
                self.set(reading, now);
                return Reading::Edge;
            },
        };

        let estimate = Self::estimate_of(anchor, now);

        if exact {
            let distance = if estimate >= reading {
                estimate - reading
            } else {
                reading - estimate
            };
            let jumped = distance > SEEK_MS;
            self.set(reading, now);
            return if jumped {
                Reading::Seek
            } else {
                Reading::Edge
            };
        }
        match self.last_reading {
            // The integer flipped. One step forward is the song playing; any
            // other jump is someone moving the bar.
            Some(last) if last != reading => {
                let expected = last as u128 + STEP_MS as u128;
                self.set(reading, now);
                if reading as u128 == expected {
                    Reading::Edge
                } else {
                    Reading::Seek
                }
            },
            // Same second as before. The estimate has to sit inside the second
            // that reading stands for, or the two are describing different plays.
            _ => {
                if (estimate as u128) + (SEEK_MS as u128) < reading as u128 || estimate as u128
                    > reading as u128 + STEP_MS as u128 + SEEK_MS as u128 {
                    self.set(reading, now);
                    Reading::Seek
                } else {
                    Reading::Steady
                }
            },
        }
    }

    /// Where the song is, with the manual offset applied.
    pub fn position(&self, now: u64) -> (r: Option<u64>)
        ensures
            r == self.position_at(now),
    {
        match self.raw_position(now) {
            Some(position) => Some(shift_ms(position, self.offset_ms)),
            None => None,
        }
    }

    fn raw_position(&self, now: u64) -> (r: Option<u64>)
        ensures
            r == self.raw_at(now),
    {
        if self.state != Playback::Playing {
            return self.frozen;
        }
        match self.anchor {
            Some(anchor) => Some(Self::estimate_of(anchor, now)),
            None => None,
        }
    }

    fn estimate_of(anchor: Anchor, now: u64) -> (r: u64)
        ensures
            r == estimate(anchor, now),
    {
        let elapsed = if now >= anchor.at {
            now - anchor.at
        } else {
            0
        };
        anchor.position.saturating_add(elapsed)
    }

    fn set(&mut self, reading: u64, now: u64)
        ensures
            final(self).anchor() == Some(Anchor { at: now, position: reading }),
            final(self).last_reading() == Some(reading),
            final(self).frozen() is None,
            final(self).state() == old(self).state(),
            final(self).offset() == old(self).offset(),
    {
        self.anchor = Some(Anchor { at: now, position: reading });
        self.last_reading = Some(reading);
        self.frozen = None;
    }
}

/// A positive offset means the lyrics arrive early, so the position moves back.
pub fn shift_ms(position: u64, offset_ms: i64) -> (r: u64)
    ensures
        r == shift(position, offset_ms),
{
    let moved = position as i128 - offset_ms as i128;
    if moved < 0 {
        0
    } else if moved > u64::MAX as i128 {
        u64::MAX
    } else {
        moved as u64
    }
}

// ---------------------------------------------------------------------------
// Laws
// ---------------------------------------------------------------------------

/// A reading that is not `Steady` is where the song is at that instant: a
/// playing clock then reports exactly the reading, the offset applied.
pub proof fn law_a_reading_is_believed(before: Clock, after: Clock, reading: u64, now: u64)
    requires
        after.anchor() == Some(Anchor { at: now, position: reading }),
        after.frozen() is None,
        after.state() == Playback::Playing,
    ensures
        after.position_at(now) == Some(shift(reading, after.offset())),
{
}

/// A paused clock stands still: whatever the time, it reports the same place.
pub proof fn law_a_pause_freezes(clock: Clock, t1: u64, t2: u64)
    requires
        clock.state() != Playback::Playing,
    ensures
        clock.position_at(t1) == clock.position_at(t2),
{
}

/// A forgotten song has no position, whatever the time, until the next
/// reading.
pub proof fn law_a_reset_forgets(clock: Clock, now: u64)
    requires
        clock.anchor() is None,
        clock.frozen() is None,
    ensures
        clock.position_at(now) is None,
{
}

/// Resuming counts on from where the pause left the song: `d` milliseconds
/// after resuming, the song is `d` past the frozen place.
pub proof fn law_resuming_counts_from_the_pause(
    paused: Clock,
    resumed: Clock,
    at: u64,
    d: u64,
)
    requires
        paused.state() == Playback::Paused,
        paused.frozen() matches Some(p) && p as int + d as int <= u64::MAX,
        resumed.state() == Playback::Playing,
        resumed.anchor() == Some(Anchor { at, position: paused.frozen()->0 }),
        at as int + d as int <= u64::MAX,
    ensures
        resumed.raw_at((at + d) as u64) == Some((paused.frozen()->0 + d) as u64),
{
}

/// The first reading after a reset is always an edge: there is nothing to
/// compare it with.
pub proof fn law_the_first_reading_anchors(clock: Clock, reading: u64, now: u64)
    requires
        clock.anchor() is None,
    ensures
        clock.classify(reading, now) == Reading::Edge,
{
}

/// A player that reports sub-second positions is believed near where the
/// clock itself puts the song: against an anchor, such a reading is an edge
/// exactly when it lies within `SEEK_MS` of the anchor's position plus the
/// time since the anchor (held to 64 bits), and a seek otherwise.
pub proof fn law_a_precise_reading_is_judged_against_the_running_estimate(
    clock: Clock,
    reading: u64,
    now: u64,
)
    requires
        clock.anchor() is Some,
        reading % 1000 != 0,
    ensures
        ({
            let a = clock.anchor()->0;
            let elapsed: int = if now >= a.at {
                now - a.at
            } else {
                0
            };
            let running: int = if a.position + elapsed > u64::MAX {
                u64::MAX as int
            } else {
                a.position + elapsed
            };
            let near = running - SEEK_MS <= reading && reading <= running + SEEK_MS;
            &&& near ==> clock.classify(reading, now) == Reading::Edge
            &&& !near ==> clock.classify(reading, now) == Reading::Seek
        }),
{
}

/// A sub-second reading that says exactly where the playing clock already
/// puts the song is an edge, however long ago the anchor was set.
pub proof fn law_a_precise_reading_that_agrees_is_an_edge(clock: Clock, reading: u64, now: u64)
    requires
        clock.anchor() is Some,
        clock.state() == Playback::Playing,
        clock.raw_at(now) == Some(reading),
        reading % 1000 != 0,
    ensures
        clock.classify(reading, now) == Reading::Edge,
{
    law_a_precise_reading_is_judged_against_the_running_estimate(clock, reading, now);
}

} // verus!
