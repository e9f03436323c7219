use lyricslens::mpris::{list, pick, preferred, short_name};

#[test]
fn players_are_the_mpris_names_in_order() {
    let names = vec![
        "org.mpris.MediaPlayer2.vlc".to_string(),
        "org.freedesktop.DBus".to_string(),
        "org.mpris.MediaPlayer2.firefox.instance_1_1".to_string(),
        ":1.42".to_string(),
    ];
    assert_eq!(
        list(&names),
        vec![
            "org.mpris.MediaPlayer2.firefox.instance_1_1".to_string(),
            "org.mpris.MediaPlayer2.vlc".to_string()
        ]
    );
}

#[test]
fn the_playing_one_wins_else_the_first() {
    let players = vec!["a".to_string(), "b".to_string(), "c".to_string()];
    assert_eq!(pick(&players, &[false, true, true]), Some(1));
    assert_eq!(pick(&players, &[false, false, false]), Some(0));
    assert_eq!(pick(&[], &[]), None);
}

#[test]
fn a_bus_name_is_shortened_to_the_player() {
    assert_eq!(short_name("org.mpris.MediaPlayer2.firefox.instance_1_1"), "firefox");
    assert_eq!(short_name("org.mpris.MediaPlayer2.spotify"), "spotify");
    assert_eq!(short_name("something.else"), "something");
}

#[test]
fn the_named_player_is_found_by_part_of_its_name() {
    let players = vec![
        "org.mpris.MediaPlayer2.firefox.instance_1_1".to_string(),
        "org.mpris.MediaPlayer2.spotify".to_string(),
    ];
    assert_eq!(preferred(&players, "spotify"), Some(1));
    assert_eq!(preferred(&players, "org.mpris"), Some(0));
    assert_eq!(preferred(&players, "vlc"), None);
}
