use lyricslens::lyrics::lrclib::{exact_params, next, search_params, title_only, Lookup, Next, Record};
use lyricslens::lyrics::normalize::Query;

fn record(lyrics: Option<&str>) -> Record {
    Record {
        track_name: "Creep".to_owned(),
        artist_name: "Radiohead".to_owned(),
        duration_ms: Some(238_000),
        instrumental: false,
        synced_lyrics: lyrics.map(str::to_owned),
    }
}

fn query(artist: Option<&str>) -> Query {
    Query { artist: artist.map(str::to_owned), title: "Creep".to_owned() }
}

fn pairs(list: &[(&str, &str)]) -> Vec<(String, String)> {
    list.iter().map(|(k, v)| (k.to_string(), v.to_string())).collect()
}

#[test]
fn the_exact_question_needs_an_artist() {
    assert_eq!(exact_params(&query(None), Some(238_000)), None);
    assert_eq!(
        exact_params(&query(Some("Radiohead")), Some(238_900)),
        Some(pairs(&[("artist_name", "Radiohead"), ("track_name", "Creep"), ("duration", "238")]))
    );
    assert_eq!(
        exact_params(&query(Some("Radiohead")), None),
        Some(pairs(&[("artist_name", "Radiohead"), ("track_name", "Creep")]))
    );
}

#[test]
fn the_search_takes_the_artist_when_there_is_one() {
    assert_eq!(search_params(&query(None)), pairs(&[("track_name", "Creep")]));
    assert_eq!(
        search_params(&query(Some("Radiohead"))),
        pairs(&[("track_name", "Creep"), ("artist_name", "Radiohead")])
    );
    let bare = title_only(&query(Some("Radiohead")));
    assert_eq!(bare, query(None));
}

#[test]
fn an_exact_hit_with_synced_lyrics_is_the_answer() {
    match next(Lookup::Exact, Some(record(Some("[00:01.00]when you were here"))), true) {
        Next::Answer(Some(found)) => assert_eq!(found.lyrics.lines.len(), 1),
        other => panic!("expected an answer, got {other:?}"),
    }
}

#[test]
fn an_exact_hit_without_synced_lyrics_goes_on_to_search() {
    assert!(matches!(next(Lookup::Exact, Some(record(None)), true), Next::Ask(Lookup::Search)));
    assert!(matches!(next(Lookup::Exact, None, true), Next::Ask(Lookup::Search)));
}

#[test]
fn a_search_miss_drops_the_artist_once() {
    assert!(matches!(next(Lookup::Search, None, true), Next::Ask(Lookup::TitleOnly)));
    assert!(matches!(next(Lookup::Search, None, false), Next::Answer(None)));
    assert!(matches!(next(Lookup::TitleOnly, None, true), Next::Answer(None)));
}

#[test]
fn what_a_search_settles_on_is_the_last_word() {
    assert!(matches!(next(Lookup::Search, Some(record(None)), true), Next::Answer(None)));
    assert!(matches!(
        next(Lookup::TitleOnly, Some(record(Some("[00:02.00]x"))), true),
        Next::Answer(Some(_))
    ));
}
