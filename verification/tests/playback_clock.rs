use lyricslens::sync::clock::{Clock, Reading};
use lyricslens::sync::Playback;

fn secs(n: u64) -> u64 {
    n * 1000
}

fn ms(n: u64) -> u64 {
    n
}

/// Some instant on the monotonic clock.
const BASE: u64 = 7_000_000;

/// A clock already playing, anchored at `position`.
fn playing(base: u64, position: u64) -> Clock {
    let mut clock = Clock::new(0);
    clock.playback(Playback::Playing, base);
    clock.sample(position, base);
    clock
}

#[test]
fn the_first_reading_anchors_the_clock() {
    let base = BASE;
    let mut clock = Clock::new(0);
    clock.playback(Playback::Playing, base);

    assert_eq!(clock.sample(secs(10), base), Reading::Edge);
    assert_eq!(clock.position(base), Some(secs(10)));
}

#[test]
fn time_runs_on_between_readings() {
    let base = BASE;
    let clock = playing(base, secs(10));
    assert_eq!(clock.position(base + ms(400)), Some(ms(10_400)));
}

#[test]
fn the_same_second_read_again_changes_nothing() {
    let base = BASE;
    let mut clock = playing(base, secs(10));

    assert_eq!(clock.sample(secs(10), base + ms(300)), Reading::Steady);
    assert_eq!(clock.position(base + ms(300)), Some(ms(10_300)));
}

#[test]
fn the_flip_to_the_next_second_re_anchors() {
    let base = BASE;
    let mut clock = playing(base, secs(10));

    // The player was read late, so the local estimate had drifted ahead.
    assert_eq!(clock.sample(secs(11), base + ms(1_060)), Reading::Edge);
    assert_eq!(clock.position(base + ms(1_060)), Some(secs(11)));
}

#[test]
fn a_jump_forward_is_a_seek() {
    let base = BASE;
    let mut clock = playing(base, secs(10));

    assert_eq!(clock.sample(secs(95), base + ms(500)), Reading::Seek);
    assert_eq!(clock.position(base + ms(500)), Some(secs(95)));
}

#[test]
fn a_jump_backwards_is_a_seek_too() {
    let base = BASE;
    let mut clock = playing(base, secs(60));

    assert_eq!(clock.sample(secs(5), base + ms(500)), Reading::Seek);
    assert_eq!(clock.position(base + ms(500)), Some(secs(5)));
}

#[test]
fn an_estimate_that_outran_its_second_is_a_seek() {
    let base = BASE;
    let mut clock = playing(base, secs(10));

    // Two seconds later the player still says 10: it was moved back, and
    // no flip will ever announce it.
    assert_eq!(clock.sample(secs(10), base + ms(2_000)), Reading::Seek);
}

#[test]
fn a_player_that_reports_sub_second_detail_is_believed() {
    let base = BASE;
    let mut clock = Clock::new(0);
    clock.playback(Playback::Playing, base);

    assert_eq!(clock.sample(ms(10_137), base), Reading::Edge);
    assert_eq!(clock.position(base + ms(100)), Some(ms(10_237)));
    assert_eq!(clock.sample(ms(10_240), base + ms(100)), Reading::Edge);
}

#[test]
fn a_sub_second_reading_far_from_the_estimate_is_a_seek() {
    let base = BASE;
    let mut clock = Clock::new(0);
    clock.playback(Playback::Playing, base);
    clock.sample(ms(10_137), base);

    assert_eq!(clock.sample(ms(80_500), base + ms(100)), Reading::Seek);
}

#[test]
fn a_pause_freezes_the_position() {
    let base = BASE;
    let mut clock = playing(base, secs(10));

    clock.playback(Playback::Paused, base + ms(400));
    assert_eq!(clock.position(base + ms(400)), Some(ms(10_400)));
    // Ten seconds of staring at a paused player change nothing.
    assert_eq!(clock.position(base + secs(10)), Some(ms(10_400)));
}

#[test]
fn resuming_counts_from_where_it_stopped() {
    let base = BASE;
    let mut clock = playing(base, secs(10));
    clock.playback(Playback::Paused, base + ms(400));

    clock.playback(Playback::Playing, base + secs(30));
    assert_eq!(clock.position(base + secs(30) + ms(100)), Some(ms(10_500)));
}

#[test]
fn stopping_forgets_the_song() {
    let base = BASE;
    let mut clock = playing(base, secs(10));

    clock.playback(Playback::Stopped, base + ms(400));
    assert_eq!(clock.position(base + ms(400)), None);
}

#[test]
fn a_positive_offset_holds_the_lyrics_back() {
    let base = BASE;
    let mut clock = playing(base, secs(10));

    clock.set_offset_ms(500);
    assert_eq!(clock.position(base), Some(ms(9_500)));
    clock.set_offset_ms(-500);
    assert_eq!(clock.position(base), Some(ms(10_500)));
}

#[test]
fn a_track_change_leaves_nothing_behind() {
    let base = BASE;
    let mut clock = playing(base, secs(10));

    clock.reset();
    assert_eq!(clock.position(base), None);
    assert_eq!(clock.sample(secs(0), base), Reading::Edge);
}

#[test]
fn a_pause_does_not_let_the_estimate_run_on() {
    let mut clock = Clock::new(0);
    let base = BASE;

    clock.playback(Playback::Playing, base);
    clock.sample(secs(30), base);
    clock.playback(Playback::Paused, base + 250);

    let frozen = clock.position(base + 250);
    assert_eq!(frozen, Some(30_250));
    assert_eq!(clock.position(base + secs(20)), frozen);
}

#[test]
fn the_status_names_mpris_uses_are_read_exactly() {
    assert_eq!(Playback::from_mpris("Playing"), Playback::Playing);
    assert_eq!(Playback::from_mpris("Paused"), Playback::Paused);
    assert_eq!(Playback::from_mpris("Stopped"), Playback::Stopped);
    assert_eq!(Playback::from_mpris("playing"), Playback::Stopped);
}
