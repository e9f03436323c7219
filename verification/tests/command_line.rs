use lyricslens::preferences::looks_like_a_colour;
use lyricslens::preferences::length;
use lyricslens::preferences::requested;
use lyricslens::worker::wanted;
use lyricslens::cli::{
    asked, command_for, exit_status, holds_terminal, installer_script, path_line,
    wants_foreground, Asked, HELP,
};

fn args(list: &[&str]) -> Vec<String> {
    list.iter().map(|a| a.to_string()).collect()
}

#[test]
fn help_wins_over_everything() {
    assert_eq!(asked(&args(&["--upgrade", "-h"])), Asked::Help);
    assert_eq!(asked(&args(&["--help"])), Asked::Help);
    assert!(HELP.contains("--toggle"));
}

#[test]
fn each_flag_asks_for_its_own() {
    assert_eq!(asked(&args(&["-V"])), Asked::Version);
    assert_eq!(asked(&args(&["--paths"])), Asked::Paths);
    assert_eq!(asked(&args(&["--upgrade"])), Asked::Upgrade);
    assert_eq!(asked(&args(&["--uninstall"])), Asked::Uninstall);
}

#[test]
fn a_typo_is_reported_not_run() {
    assert_eq!(
        asked(&args(&["--foreground", "--toggel", "--nope"])),
        Asked::Unknown("--toggel".to_owned())
    );
}

#[test]
fn the_rest_runs_the_overlay() {
    assert_eq!(asked(&args(&[])), Asked::Run);
    assert_eq!(asked(&args(&["--foreground", "word"])), Asked::Run);
}

#[test]
fn only_foreground_keeps_the_terminal() {
    assert!(holds_terminal(&args(&["--foreground"])));
    assert!(!holds_terminal(&args(&["--toggle"])));
    assert!(wants_foreground(&args(&[]), true));
    assert!(!wants_foreground(&args(&[]), false));
}

#[test]
fn the_running_overlay_is_asked_in_table_order() {
    assert_eq!(command_for(&args(&["--quit", "--toggle"])), Some("toggle"));
    assert_eq!(command_for(&args(&["--settings"])), Some("settings"));
    assert_eq!(command_for(&args(&["--foreground"])), None);
}

#[test]
fn the_installer_gets_its_arguments() {
    assert_eq!(
        installer_script(&[]),
        "curl -fsSL https://raw.githubusercontent.com/Julio0Cesar/lyricslens/main/install.sh | sh"
    );
    assert_eq!(
        installer_script(&["--remove"]),
        "curl -fsSL https://raw.githubusercontent.com/Julio0Cesar/lyricslens/main/install.sh | sh -s -- --remove"
    );
}

#[test]
fn an_exit_code_that_does_not_fit_is_a_failure() {
    assert_eq!(exit_status(Some(0)), 0);
    assert_eq!(exit_status(Some(3)), 3);
    assert_eq!(exit_status(Some(300)), 1);
    assert_eq!(exit_status(Some(-1)), 1);
    assert_eq!(exit_status(None), 1);
}

#[test]
fn paths_line_up_in_a_column() {
    assert_eq!(
        path_line("log", Some("/home/a/.local/state/lyricslens/lyricslens.log")),
        "log        /home/a/.local/state/lyricslens/lyricslens.log"
    );
    assert_eq!(path_line("settings", None), "settings   (no home directory)");
    assert_eq!(path_line("longer than ten", Some("/x")), "longer than ten /x");
}

#[test]
fn colours_are_checked_enough() {
    assert!(looks_like_a_colour("#fff"));
    assert!(looks_like_a_colour("#FFFFFF80"));
    assert!(looks_like_a_colour("white"));
    assert!(!looks_like_a_colour("#ff"));
    assert!(!looks_like_a_colour("#ggg"));
    assert!(!looks_like_a_colour(""));
    assert!(!looks_like_a_colour("light blue"));
}

#[test]
fn lengths_read_as_minutes_and_seconds() {
    assert_eq!(length(Some(238_000)), "3:58");
    assert_eq!(length(Some(65_999)), "1:05");
    assert_eq!(length(Some(3_600_000)), "60:00");
    assert_eq!(length(None), "--:--");
}

#[test]
fn the_preferences_window_is_asked_by_flag() {
    assert!(requested(&args(&["lyricslens", "--settings"])));
    assert!(!requested(&args(&["lyricslens"])));
}

#[test]
fn the_variable_wins_over_the_file() {
    assert_eq!(
        wanted(Some("vlc".to_owned()), Some("spotify".to_owned())),
        Some("vlc".to_owned())
    );
    assert_eq!(
        wanted(Some(String::new()), Some("spotify".to_owned())),
        Some("spotify".to_owned())
    );
    assert_eq!(wanted(None, None), None);
}
