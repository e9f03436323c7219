use lyricslens::lyrics::lrc::parse;
use lyricslens::lyrics::{Line, LineKind};

fn at(line: &Line) -> u64 {
    line.at_ms
}

fn text(line: &Line) -> &str {
    line.sung().expect("the line is sung")
}

#[test]
fn reads_a_single_line() {
    let lyrics = parse("[00:12.34]hello");
    assert_eq!(lyrics.lines.len(), 1);
    assert_eq!(at(&lyrics.lines[0]), 12_340);
    assert_eq!(text(&lyrics.lines[0]), "hello");
}

#[test]
fn one_line_with_several_timestamps_becomes_several_lines() {
    let lyrics = parse("[00:12.00][01:30.00]chorus");
    assert_eq!(lyrics.lines.len(), 2);
    assert_eq!(at(&lyrics.lines[0]), 12_000);
    assert_eq!(at(&lyrics.lines[1]), 90_000);
    assert!(lyrics.lines.iter().all(|line| line.sung() == Some("chorus")));
}

#[test]
fn lines_come_out_in_time_order_whatever_the_file_says() {
    let lyrics = parse("[00:30.00]second\n[00:10.00]first");
    assert_eq!(text(&lyrics.lines[0]), "first");
    assert_eq!(text(&lyrics.lines[1]), "second");
}

#[test]
fn a_fraction_may_be_absent_two_digits_or_three() {
    assert_eq!(at(&parse("[00:05]x").lines[0]), 5_000);
    assert_eq!(at(&parse("[00:05.7]x").lines[0]), 5_700);
    assert_eq!(at(&parse("[00:05.25]x").lines[0]), 5_250);
    assert_eq!(at(&parse("[00:05.250]x").lines[0]), 5_250);
}

#[test]
fn a_colon_may_separate_the_fraction_too() {
    assert_eq!(at(&parse("[00:05:25]x").lines[0]), 5_250);
}

#[test]
fn minutes_run_past_an_hour() {
    assert_eq!(at(&parse("[75:00.00]x").lines[0]), 4_500_000);
}

#[test]
fn metadata_tags_fill_the_header_and_leave_no_line() {
    let lyrics = parse("[ti:Paranoid Android]\n[ar:Radiohead]\n[al:OK Computer]");
    assert_eq!(lyrics.title.as_deref(), Some("Paranoid Android"));
    assert_eq!(lyrics.artist.as_deref(), Some("Radiohead"));
    assert_eq!(lyrics.album.as_deref(), Some("OK Computer"));
    assert!(lyrics.is_empty());
}

#[test]
fn an_offset_is_read_with_or_without_its_plus_sign() {
    assert_eq!(parse("[offset:+500]").offset_ms, 500);
    assert_eq!(parse("[offset:500]").offset_ms, 500);
    assert_eq!(parse("[offset:-250]").offset_ms, -250);
}

#[test]
fn a_meaningless_offset_leaves_the_default() {
    assert_eq!(parse("[offset:soon]").offset_ms, 0);
}

#[test]
fn an_unknown_tag_is_ignored_without_dropping_the_line() {
    let lyrics = parse("[xx:whatever][00:01.00]still here");
    assert_eq!(lyrics.lines.len(), 1);
    assert_eq!(text(&lyrics.lines[0]), "still here");
}

#[test]
fn a_line_with_no_timestamp_is_dropped() {
    assert!(parse("just some text").is_empty());
}

#[test]
fn an_unclosed_bracket_does_not_eat_the_file() {
    let lyrics = parse("[00:01.00 broken\n[00:02.00]fine");
    assert_eq!(lyrics.lines.len(), 1);
    assert_eq!(text(&lyrics.lines[0]), "fine");
}

#[test]
fn a_time_that_is_not_a_number_is_dropped() {
    assert!(parse("[ab:cd.ef]x").is_empty());
    assert!(parse("[00:xx.00]x").is_empty());
}

#[test]
fn sixty_seconds_is_not_a_time() {
    assert!(parse("[00:60.00]x").is_empty());
}

#[test]
fn surrounding_whitespace_is_trimmed_from_the_text() {
    assert_eq!(text(&parse("[00:01.00]   spaced   ").lines[0]), "spaced");
}

#[test]
fn a_timestamp_with_no_words_is_an_instrumental_gap() {
    let lyrics = parse("[00:10.00]last words\n[00:14.00]\n[00:30.00]back again");
    assert_eq!(lyrics.lines.len(), 3);
    assert_eq!(lyrics.lines[1].kind, LineKind::Instrumental);
    assert_eq!(lyrics.lines[1].sung(), None);
}

#[test]
fn a_gap_repeats_with_every_timestamp_on_its_line() {
    let lyrics = parse("[00:10.00][02:00.00]   ");
    assert_eq!(lyrics.lines.len(), 2);
    assert!(lyrics.lines.iter().all(|line| line.kind == LineKind::Instrumental));
}

#[test]
fn an_empty_file_parses_to_nothing() {
    assert!(parse("").is_empty());
    assert!(parse("\n\n\n").is_empty());
}

#[test]
fn windows_line_endings_are_read_too() {
    let lyrics = parse("[00:01.00]one\r\n[00:02.00]two\r\n");
    assert_eq!(lyrics.lines.len(), 2);
    assert_eq!(text(&lyrics.lines[0]), "one");
    assert_eq!(text(&lyrics.lines[1]), "two");
}

#[test]
fn lines_at_the_same_moment_keep_the_file_order() {
    let lyrics = parse("[00:05.00]b\n[00:01.00]a\n[00:05.00]c");
    let texts: Vec<&str> = lyrics.lines.iter().map(text).collect();
    assert_eq!(texts, ["a", "b", "c"]);
}

#[test]
fn a_time_past_sixty_four_bits_is_not_a_time() {
    assert!(parse("[99999999999999999999:00]x").is_empty());
    assert!(parse("[307445734561825860:00]x").is_empty());
}

#[test]
fn a_fraction_of_four_digits_is_not_a_time() {
    assert!(parse("[00:05.2500]x").is_empty());
}
