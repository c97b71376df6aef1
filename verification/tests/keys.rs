use hyprrgn::config::{Config, Keybindings};
use hyprrgn::keys::{
    action_key_lookups, action_keys_from_config, apply_keybindings, keycode_for_char,
    keycode_for_name, keymap_from_env, keysym_from_name, keysym_lookup, ActionKeys, Keymap,
    KEY_BACKSPACE, KEY_ESCAPE, KEY_NO_SYMBOL, KEY_RETURN,
};

fn bound(backspace: Option<&str>, esc: Option<&str>, enter: Option<&str>) -> Config {
    Config {
        grid_size: None,
        keybindings: Some(Keybindings {
            cells: None,
            backspace: backspace.map(|s| s.to_string()),
            esc: esc.map(|s| s.to_string()),
            enter: enter.map(|s| s.to_string()),
        }),
    }
}

#[test]
fn letter_codes() {
    let table = [
        ('a', 30), ('b', 48), ('c', 46), ('d', 32), ('e', 18), ('f', 33), ('g', 34), ('h', 35),
        ('i', 23), ('j', 36), ('k', 37), ('l', 38), ('m', 50), ('n', 49), ('o', 24), ('p', 25),
        ('q', 16), ('r', 19), ('s', 31), ('t', 20), ('u', 22), ('v', 47), ('w', 17), ('x', 45),
        ('y', 21), ('z', 44),
    ];
    for (c, code) in table {
        assert_eq!(keycode_for_char(c), Some(code));
        assert_eq!(keycode_for_char(c.to_ascii_uppercase()), Some(code));
    }
    for c in [';', '1', '[', ' ', '\u{e4}', '\u{130}'] {
        assert_eq!(keycode_for_char(c), None);
    }
}

#[test]
fn name_codes() {
    let table = [
        ("u", 30), ("i", 23), ("j", 36), ("k", 37), ("h", 35), ("l", 38), ("y", 21), ("o", 24),
        ("backspace", 14), ("esc", 1), ("escape", 1), ("enter", 28), ("return", 28),
        ("  ESCape\t", 1), ("U", 30),
    ];
    for (name, code) in table {
        assert_eq!(keycode_for_name(name), Some(code));
    }
    for name in ["", "a", "space", "back space"] {
        assert_eq!(keycode_for_name(name), None);
    }
}

#[test]
fn default_navigation_keys() {
    assert_eq!(Keymap::default(), Keymap { backspace: 14, esc: 1, enter: 28 });
    assert_eq!(
        ActionKeys::default(),
        ActionKeys { backspace: 0xff08, esc: 0xff1b, enter: 0xff0d }
    );
    let km = Keymap { backspace: 3, esc: 4, enter: 5 };
    assert_eq!(keymap_from_env(km), km);
}

#[test]
fn keybindings_replace_known_codes() {
    let base = Keymap::default();
    assert_eq!(apply_keybindings(base, &Config::default()), base);
    let cfg = bound(Some("H"), Some("nonsense"), None);
    assert_eq!(apply_keybindings(base, &cfg), Keymap { backspace: 35, esc: 1, enter: 28 });
    let cfg = bound(None, Some(" backspace "), Some("esc"));
    assert_eq!(apply_keybindings(base, &cfg), Keymap { backspace: 14, esc: 14, enter: 1 });
}

#[test]
fn navigation_names_need_no_lookup() {
    for name in ["backspace", " Esc", "ESCAPE", "enter ", "Return"] {
        assert_eq!(keysym_lookup(name), None);
    }
    assert_eq!(keysym_lookup(" Space ").unwrap(), "Space");
    assert_eq!(keysym_lookup("").unwrap(), "");
}

#[test]
fn keysyms_from_names() {
    assert_eq!(keysym_from_name("BackSpace", 5), Some(KEY_BACKSPACE));
    assert_eq!(keysym_from_name("escape", KEY_NO_SYMBOL), Some(KEY_ESCAPE));
    assert_eq!(keysym_from_name("enter", KEY_NO_SYMBOL), Some(KEY_RETURN));
    assert_eq!(keysym_from_name("space", 0x20), Some(0x20));
    assert_eq!(keysym_from_name("no such key", KEY_NO_SYMBOL), None);
}

#[test]
fn action_keys_follow_the_config() {
    let none = ActionKeys { backspace: 0, esc: 0, enter: 0 };
    assert_eq!(action_keys_from_config(&Config::default(), &none), ActionKeys::default());

    let cfg = bound(Some("h"), Some("backspace"), Some("bogus"));
    let asked = action_key_lookups(&cfg);
    assert_eq!(asked.backspace.as_deref(), Some("h"));
    assert_eq!(asked.esc, None);
    assert_eq!(asked.enter.as_deref(), Some("bogus"));
    let found = ActionKeys { backspace: 0x68, esc: 0, enter: 0 };
    assert_eq!(
        action_keys_from_config(&cfg, &found),
        ActionKeys { backspace: 0x68, esc: KEY_BACKSPACE, enter: KEY_RETURN }
    );

    let asked = action_key_lookups(&Config::default());
    assert!(asked.backspace.is_none() && asked.esc.is_none() && asked.enter.is_none());
}
