use lyricslens::lyrics::lrc;
use lyricslens::lyrics::{LineKind, Lyrics};

fn song() -> Lyrics {
    lrc::parse("[00:10.00]first\n[00:20.00]\n[00:30.00]second")
}

fn secs(n: u64) -> u64 {
    n * 1000
}

#[test]
fn nothing_is_sung_before_the_first_line() {
    assert!(song().line_at(secs(5)).is_none());
}

#[test]
fn a_line_holds_until_the_next_one() {
    let song = song();
    assert_eq!(song.line_at(secs(10)).unwrap().sung(), Some("first"));
    assert_eq!(song.line_at(secs(19)).unwrap().sung(), Some("first"));
}

#[test]
fn a_gap_clears_the_screen() {
    assert_eq!(song().line_at(secs(25)).unwrap().sung(), None);
}

#[test]
fn the_last_line_stays_to_the_end() {
    assert_eq!(song().line_at(secs(600)).unwrap().sung(), Some("second"));
}

#[test]
fn the_files_own_offset_moves_the_lookup() {
    let mut song = song();
    // The file says its lyrics run half a second late.
    song.offset_ms = 500;
    assert_eq!(song.line_at(9_600).unwrap().sung(), Some("first"));
}

#[test]
fn the_lines_still_to_come_skip_the_silences() {
    let song = song();
    assert_eq!(song.after(secs(0), 2), ["first", "second"]);
    assert_eq!(song.after(secs(12), 2), ["second"]);
    assert!(song.after(secs(600), 2).is_empty());
}

#[test]
fn an_empty_song_has_no_lines() {
    assert!(Lyrics::default().line_at(secs(1)).is_none());
}

#[test]
fn a_negative_offset_holds_the_lookup_back() {
    let mut song = song();
    song.offset_ms = -500;
    assert!(song.line_at(10_400).is_none());
    assert_eq!(song.line_at(10_500).unwrap().sung(), Some("first"));
    // Held back past the start of the song, the lookup stays at zero.
    assert!(song.line_at(100).is_none());
}

#[test]
fn a_count_of_zero_asks_for_nothing() {
    assert!(song().after(0, 0).is_empty());
    assert_eq!(song().after(0, 9), ["first", "second"]);
}

#[test]
fn the_gap_is_a_line_of_its_own() {
    assert_eq!(song().lines[1].kind, LineKind::Instrumental);
}
