use lyricslens::tray::{argb, icon_name, Command};

#[test]
fn pixels_go_from_rgba_to_argb() {
    let rgba = [1u8, 2, 3, 4, 10, 20, 30, 40];
    assert_eq!(argb(&rgba), vec![4, 1, 2, 3, 40, 10, 20, 30]);
}

#[test]
fn a_piece_of_a_pixel_is_left_out() {
    let rgba = [1u8, 2, 3, 4, 5, 6];
    assert_eq!(argb(&rgba), vec![4, 1, 2, 3]);
    assert!(argb(&[]).is_empty());
}

#[test]
fn the_name_is_given_only_without_pixels() {
    assert_eq!(icon_name(true), "");
    assert_eq!(icon_name(false), "lyricslens");
}

#[test]
fn commands_compare() {
    assert_eq!(Command::Toggle, Command::Toggle);
    assert_ne!(Command::Quit, Command::Settings);
}
