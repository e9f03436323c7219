//! Knowing where the song is, right now.

pub mod clock;

use vstd::prelude::*;

use crate::text::same_text;

verus! {

/// What the player says it is doing.
#[derive(Debug, Clone, Copy, PartialEq, Eq, Structural)]
pub enum Playback {
    Playing,
    Paused,
    Stopped,
}

/// What a `PlaybackStatus` spells.
pub open spec fn playback_of(status: Seq<char>) -> Playback {
    if status == "Playing"@ {
        Playback::Playing
    } else if status == "Paused"@ {
        Playback::Paused
    } else {
        Playback::Stopped
    }
}

impl Playback {
    /// MPRIS spells these three exactly, and anything else is a player bug.
    pub fn from_mpris(status: &str) -> (r: Self)
        ensures
            r == playback_of(status@),
    {
        if same_text(status, "Playing") {
            Playback::Playing
        } else if same_text(status, "Paused") {
            Playback::Paused
        } else {
            Playback::Stopped
        }
    }
}

} // verus!
