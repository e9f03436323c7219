use lyricslens::lyrics::lrc::parse;
use lyricslens::lyrics::{Line, LineKind, Lyrics};
use lyricslens::screen::{State, Update};
use lyricslens::store::settings::Settings;
use lyricslens::sync::Playback;

const SONG: &str = "[00:01.00]first\n[00:03.00]\n[00:05.00]second\n[00:07.00]third\n";

fn state() -> State {
    State::new(Settings::default(), false, 1, 0)
}

fn song(state: &mut State, at: u64) {
    state.apply(
        Update::TrackChanged { title: Some("Song".to_owned()), empty: false },
        at,
    );
}

#[test]
fn nothing_is_shown_without_a_track() {
    let state = state();
    assert_eq!(state.line(0), None);
    assert!(state.upcoming(0).is_empty());
    assert_eq!(state.report(), "");
}

#[test]
fn a_new_track_says_it_is_looking() {
    let mut state = state();
    song(&mut state, 1_000);
    assert_eq!(state.report(), "Looking…");
    assert_eq!(
        state.line(1_500),
        Some("Song  ·  looking for the lyrics…".to_owned())
    );
}

#[test]
fn the_news_goes_quiet_after_the_grace() {
    let mut state = state();
    song(&mut state, 1_000);
    assert!(state.line(4_999).is_some());
    assert_eq!(state.line(5_000), None);
}

#[test]
fn no_lyrics_is_said_once() {
    let mut state = state();
    state.apply(Update::TrackChanged { title: None, empty: false }, 0);
    state.apply(Update::Lyrics(None), 10);
    assert_eq!(state.report(), "No synced lyrics found for this one.");
    assert_eq!(
        state.line(100),
        Some("unknown track  ·  no synced lyrics for this one".to_owned())
    );
}

#[test]
fn lyrics_without_a_position_wait_for_the_player() {
    let mut state = state();
    song(&mut state, 0);
    state.apply(Update::Lyrics(Some(parse(SONG))), 10);
    assert_eq!(state.report(), "Following 4 lines.");
    assert_eq!(
        state.line(100),
        Some("Song  ·  waiting for the player".to_owned())
    );
}

#[test]
fn the_line_follows_the_clock() {
    let mut state = state();
    song(&mut state, 0);
    state.apply(Update::Lyrics(Some(parse(SONG))), 0);
    state.apply(Update::Playback(Playback::Playing), 0);
    state.apply(Update::Position { reading_ms: 1_000, at_ms: 10_000 }, 10_000);
    assert_eq!(state.line(10_000), Some("first".to_owned()));
    // The gap at three seconds clears the screen.
    assert_eq!(state.line(12_500), None);
    assert_eq!(state.line(14_000), Some("second".to_owned()));
    assert_eq!(
        state.upcoming(10_000),
        vec!["second".to_owned(), "third".to_owned()]
    );
}

#[test]
fn a_paused_song_can_hide_the_overlay() {
    let mut state = State::new(Settings::default(), true, 1, 0);
    song(&mut state, 0);
    state.apply(Update::Lyrics(Some(parse(SONG))), 0);
    state.apply(Update::Playback(Playback::Playing), 0);
    state.apply(Update::Position { reading_ms: 1_000, at_ms: 0 }, 0);
    assert_eq!(state.line(0), Some("first".to_owned()));
    state.apply(Update::Playback(Playback::Paused), 100);
    assert_eq!(state.line(200), None);
}

#[test]
fn a_stalled_player_is_a_standing_fact() {
    let mut state = state();
    song(&mut state, 0);
    state.apply(Update::PositionStalled, 10);
    assert_eq!(
        state.line(60_000),
        Some("Song  ·  this player does not report its position".to_owned())
    );
    // Playback news clears it.
    state.apply(Update::Playback(Playback::Playing), 60_000);
    assert_eq!(state.line(60_001), None);
}

#[test]
fn the_players_offset_moves_the_lyrics() {
    let mut settings = Settings::default();
    settings.set_offset_ms("org.mpris.MediaPlayer2.spotify", 1_000);
    let mut state = State::new(settings, false, 0, 0);
    song(&mut state, 0);
    state.apply(Update::Player("org.mpris.MediaPlayer2.spotify".to_owned()), 0);
    state.apply(Update::Lyrics(Some(parse(SONG))), 0);
    state.apply(Update::Playback(Playback::Playing), 0);
    state.apply(Update::Position { reading_ms: 1_500, at_ms: 0 }, 0);
    // A second and a half in, less the second the lyrics have to wait: the
    // first line has not started.
    assert_eq!(state.line(0), None);
    assert_eq!(state.line(500), Some("first".to_owned()));
    assert_eq!(state.upcoming(500), vec!["second".to_owned()]);
}

#[test]
fn no_player_at_all_stops_the_playing() {
    let mut state = state();
    song(&mut state, 0);
    state.apply(Update::Playback(Playback::Playing), 0);
    state.apply(Update::TrackChanged { title: None, empty: true }, 10);
    assert_eq!(state.report(), "");
    assert_eq!(state.line(20), None);
}

#[test]
fn lyrics_know_whether_they_are_in_order() {
    assert!(parse(SONG).in_order());
    let shuffled = Lyrics {
        lines: vec![
            Line {
                at_ms: 2_000,
                kind: LineKind::Sung("late".to_owned()),
            },
            Line {
                at_ms: 1_000,
                kind: LineKind::Instrumental,
            },
        ],
        ..Default::default()
    };
    assert!(!shuffled.in_order());
}
