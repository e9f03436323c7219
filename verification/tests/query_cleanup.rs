use lyricslens::lyrics::normalize::{clean, clean_checked, from_track, from_track_checked, settle, Query};

/// Real uploads, and what a lyrics service needs them to become.
#[test]
fn a_table_of_noisy_titles() {
    let cases = [
        (None, "Radiohead - Paranoid Android (Official Video)", "Radiohead", "Paranoid Android"),
        (
            Some("Michael Jackson"),
            "Michael Jackson - Billie Jean (Official Video) [HD]",
            "Michael Jackson",
            "Billie Jean",
        ),
        (
            Some("QueenOfficial"),
            "Queen – Bohemian Rhapsody (Official Video Remastered)",
            "Queen",
            "Bohemian Rhapsody",
        ),
        (
            Some("Daft Punk - Topic"),
            "Daft Punk - Get Lucky (Official Audio) ft. Pharrell Williams",
            "Daft Punk",
            "Get Lucky",
        ),
        (Some("AdeleVEVO"), "Adele - Hello | Lyrics", "Adele", "Hello"),
        (None, "Linkin Park - Numb [Official Music Video]", "Linkin Park", "Numb"),
        (Some("Gorillaz"), "Feel Good Inc. (Official Video)", "Gorillaz", "Feel Good Inc."),
        (
            None,
            "Tame Impala - The Less I Know The Better | 4K",
            "Tame Impala",
            "The Less I Know The Better",
        ),
    ];

    for (artist, title, want_artist, want_title) in cases {
        let query = clean(artist, title);
        assert_eq!(
            (query.artist.as_deref(), query.title.as_str()),
            (Some(want_artist), want_title),
            "on {title:?}"
        );
    }
}

#[test]
fn a_clean_player_is_left_alone() {
    let query = clean(Some("Radiohead"), "Paranoid Android");
    assert_eq!(query.artist.as_deref(), Some("Radiohead"));
    assert_eq!(query.title, "Paranoid Android");
}

#[test]
fn a_parenthesis_that_names_the_recording_stays() {
    assert_eq!(clean(None, "Nirvana - Come As You Are (Unplugged)").title, "Come As You Are (Unplugged)");
    assert_eq!(clean(None, "Avicii - Levels (Radio Edit)").title, "Levels (Radio Edit)");
}

#[test]
fn a_hyphenated_name_is_not_split() {
    let query = clean(Some("Jay-Z"), "Jay-Z");
    assert_eq!(query.title, "Jay-Z");
}

#[test]
fn a_title_with_no_artist_anywhere_keeps_the_artist_empty() {
    let query = clean(None, "some random upload");
    assert_eq!(query.artist, None);
    assert_eq!(query.title, "some random upload");
}

#[test]
fn only_the_first_of_a_credit_list_is_searched_for() {
    let query = clean(Some("Dj Brenno, SAM SAM, Manzzy, MC Carol"), "Ilha de Capri");
    assert_eq!(query.artist.as_deref(), Some("Dj Brenno"));

    let query = clean(Some("Calvin Harris & Dua Lipa"), "One Kiss");
    assert_eq!(query.artist.as_deref(), Some("Calvin Harris"));
}

#[test]
fn an_empty_title_survives() {
    assert_eq!(clean(None, ""), Query::default());
}

#[test]
fn the_patterns_compile() {
    assert_eq!(
        clean_checked(Some("Radiohead"), "Creep"),
        Some(Query { artist: Some("Radiohead".to_string()), title: "Creep".to_string() })
    );
}

#[test]
fn a_track_is_read_by_its_first_artist() {
    let query = from_track(&["Radiohead".to_string(), "Someone".to_string()], Some("Creep (Official Video)"));
    assert_eq!(query.artist.as_deref(), Some("Radiohead"));
    assert_eq!(query.title, "Creep");
    assert_eq!(from_track(&[], None), Query::default());
}

#[test]
fn an_unclosed_group_is_dropped_and_quotes_go() {
    assert_eq!(clean(None, "\"Song\" (never closed").title, "Song");
    assert_eq!(clean(Some("  "), "Song [a [nested] group]").title, "Song (a [nested] group)");
}

#[test]
fn settle_trusts_the_title_over_a_channel() {
    let q = settle(Some("ArtistVEVO"), "Artist - Song", true, "Artist");
    assert_eq!(q.artist.as_deref(), Some("Artist"));
    assert_eq!(q.title, "Song");
}

#[test]
fn settle_keeps_the_player_artist_when_the_title_names_another() {
    let q = settle(Some("Some Band"), "Live Set - Part One", false, "Some Band");
    assert_eq!(q.artist.as_deref(), Some("Some Band"));
    assert_eq!(q.title, "Live Set - Part One");
}

#[test]
fn settle_keeps_the_split_when_both_agree() {
    let q = settle(Some("  the beatles "), "The Beatles - Let It Be", false, "the beatles");
    assert_eq!(q.artist.as_deref(), Some("The Beatles"));
    assert_eq!(q.title, "Let It Be");
}

#[test]
fn settle_without_a_dash_takes_the_unchanneled_artist() {
    let q = settle(Some("Adele - Topic"), "\"Hello\"", true, "Adele");
    assert_eq!(q.artist.as_deref(), Some("Adele"));
    assert_eq!(q.title, "Hello");
    let none = settle(Some("   "), "Hello", false, "");
    assert_eq!(none.artist, None);
    let first = settle(None, "A, B & C - Song", false, "");
    assert_eq!(first.artist.as_deref(), Some("A"));
}

#[test]
fn from_track_checked_reads_the_first_artist() {
    let artists = vec!["Radiohead".to_string(), "Someone".to_string()];
    let q = from_track_checked(&artists, Some("Creep (Official Video)")).expect("the patterns compile");
    assert_eq!(q.artist.as_deref(), Some("Radiohead"));
    assert_eq!(q.title, "Creep");
    let none = from_track_checked(&[], None).expect("the patterns compile");
    assert_eq!(none.artist, None);
    assert_eq!(none.title, "");
}
