use lyricslens::i18n::{language, t, Language};
use lyricslens::log::{dir, rolls, LIMIT};
use lyricslens::store::autostart::{enabled, entry, path};
use lyricslens::store::cache::key;
use lyricslens::store::settings::Settings;
use lyricslens::store::{cache_dir, config_dir};

#[test]
fn the_same_recording_gets_the_same_name() {
    let a = key("Radiohead", "Creep", Some(238));
    let b = key("  radiohead ", "creep", Some(238));
    assert_eq!(a, b);
}

#[test]
fn a_different_length_is_a_different_recording() {
    let album = key("Radiohead", "Creep", Some(238));
    let live = key("Radiohead", "Creep", Some(300));
    assert_ne!(album, live);
}

#[test]
fn an_unknown_length_still_gets_a_name() {
    assert!(key("Radiohead", "Creep", None).ends_with(".lrc"));
}

#[test]
fn the_name_is_stable_across_runs() {
    assert_eq!(key("Radiohead", "Creep", Some(238)), "0b4c939c07976d46.lrc");
}

#[test]
fn the_name_has_sixteen_hex_digits() {
    let k = key("", "", None);
    assert_eq!(k.len(), 20);
    assert!(k[..16].chars().all(|c| c.is_ascii_hexdigit() && !c.is_ascii_uppercase()));
}

#[test]
fn a_relative_xdg_path_is_ignored() {
    assert_eq!(
        config_dir(Some("relative/path"), Some("/home/u")).as_deref(),
        Some("/home/u/.config/lyricslens")
    );
    assert_eq!(
        config_dir(Some("/etc/xdg"), Some("/home/u")).as_deref(),
        Some("/etc/xdg/lyricslens")
    );
    assert_eq!(cache_dir(None, Some("/home/u")).as_deref(), Some("/home/u/.cache/lyricslens"));
    assert_eq!(cache_dir(Some(""), None), None);
}

#[test]
fn the_autostart_entry_lives_next_to_the_config() {
    assert_eq!(
        path(None, Some("/home/u")).as_deref(),
        Some("/home/u/.config/autostart/lyricslens.desktop")
    );
    assert_eq!(
        path(Some("/x"), None).as_deref(),
        Some("/x/autostart/lyricslens.desktop")
    );
    assert_eq!(path(None, None), None);
    let text = entry("/usr/bin/lyricslens");
    assert!(text.starts_with("[Desktop Entry]\n"));
    assert!(text.contains("\nExec=/usr/bin/lyricslens\n"));
    assert!(enabled(Some("/x"), true));
    assert!(!enabled(None, true));
    assert!(!enabled(Some("/x"), false));
}

#[test]
fn a_zero_offset_is_not_stored() {
    let mut settings = Settings::default();
    settings.set_offset_ms("a", 300);
    assert_eq!(settings.offset_ms("a"), 300);
    settings.set_offset_ms("a", 0);
    assert!(settings.offsets_list().is_empty());
    assert_eq!(settings.offset_ms("a"), 0);
}

#[test]
fn offsets_are_kept_per_player() {
    let mut settings = Settings::default();
    settings.set_offset_ms("org.mpris.MediaPlayer2.spotify", -250);
    settings.set_offset_ms("org.mpris.MediaPlayer2.vlc", 100);
    settings.set_offset_ms("org.mpris.MediaPlayer2.spotify", 50);
    assert_eq!(settings.offset_ms("org.mpris.MediaPlayer2.spotify"), 50);
    assert_eq!(settings.offset_ms("org.mpris.MediaPlayer2.vlc"), 100);
    assert_eq!(settings.offsets_list().len(), 2);
    let copy = settings.clone();
    assert_eq!(copy.offset_ms("org.mpris.MediaPlayer2.vlc"), 100);
    assert_eq!(Settings::default().bottom_margin(), 100);
    assert_eq!(Settings::default().font_size(), 30);
}

#[test]
fn the_log_lives_in_the_state_directory() {
    assert_eq!(dir(None, Some("/home/u")).as_deref(), Some("/home/u/.local/state/lyricslens"));
    assert_eq!(dir(Some("rel"), Some("/home/u")).as_deref(), Some("/home/u/.local/state/lyricslens"));
    assert_eq!(lyricslens::log::path(Some("/s"), None).as_deref(), Some("/s/lyricslens/lyricslens.log"));
    assert_eq!(lyricslens::log::path(None, None), None);
    assert!(rolls(LIMIT));
    assert!(!rolls(LIMIT - 1));
}

#[test]
fn what_is_translated_and_what_is_not() {
    assert_eq!(language(&[Some("pt_BR.UTF-8".to_string())]), Language::Portuguese);
    assert_eq!(t(Language::Portuguese, "Quit"), "Sair");
    assert_eq!(t(Language::Portuguese, "Nothing here says this"), "Nothing here says this");
    assert_eq!(language(&[Some("fr_FR.UTF-8".to_string())]), Language::English);
    assert_eq!(t(Language::English, "Quit"), "Quit");
    assert_eq!(language(&[None, Some("C".to_string()), Some("PT".to_string())]), Language::Portuguese);
    assert_eq!(language(&[]), Language::English);
    assert_eq!(t(Language::Portuguese, "In pixels. Where a long line wraps"), "Em pixels. Onde uma linha longa quebra");
}
