use lyricslens::desktop::{compositor, request, snippet, split, sway_keys, Compositor};

#[test]
fn a_combination_splits_into_modifiers_and_key() {
    let (modifiers, key) = split("SUPER SHIFT, L");
    assert_eq!(modifiers, "SUPER SHIFT");
    assert_eq!(key, "L");
}

#[test]
fn a_key_on_its_own_has_no_modifiers() {
    let (modifiers, key) = split("F9");
    assert!(modifiers.is_empty());
    assert_eq!(key, "F9");
}

#[test]
fn sway_spells_the_modifiers_its_own_way() {
    assert_eq!(sway_keys("SUPER SHIFT", "L"), "Mod4+Shift+L");
    assert_eq!(sway_keys("CTRL ALT", "F9"), "Control+Mod1+F9");
    assert_eq!(sway_keys("", "F9"), "F9");
    assert_eq!(sway_keys("win hyper", "x"), "Mod4+HYPER+x");
}

#[test]
fn the_compositor_is_told_by_its_variables() {
    assert_eq!(compositor(true, true), Compositor::Hyprland);
    assert_eq!(compositor(false, true), Compositor::Sway);
    assert_eq!(compositor(false, false), Compositor::Unknown);
}

#[test]
fn what_each_compositor_is_asked() {
    assert_eq!(request("  ", "--toggle", "/bin/l", Compositor::Hyprland), Ok(None));
    assert_eq!(
        request("SUPER SHIFT, L", "--toggle", "/bin/l", Compositor::Hyprland),
        Ok(Some((
            "hyprctl".to_string(),
            vec!["keyword".to_string(), "bind".to_string(), "SUPER SHIFT,L,exec,/bin/l --toggle".to_string()]
        )))
    );
    assert_eq!(
        request("SUPER SHIFT, L", "--toggle", "/bin/l", Compositor::Sway),
        Ok(Some((
            "swaymsg".to_string(),
            vec![
                "bindsym".to_string(),
                "Mod4+Shift+L".to_string(),
                "exec".to_string(),
                "/bin/l --toggle".to_string()
            ]
        )))
    );
    assert!(request("SUPER, L", "--toggle", "/bin/l", Compositor::Unknown).is_err());
}

#[test]
fn the_line_to_paste() {
    assert_eq!(
        snippet("", "--toggle", "/bin/l", Compositor::Unknown),
        "bind = SUPER, L, exec, /bin/l --toggle"
    );
    assert_eq!(
        snippet("CTRL, K", "--toggle", "/bin/l", Compositor::Sway),
        "bindsym Control+K exec /bin/l --toggle"
    );
}
