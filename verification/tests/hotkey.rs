use goxlr_volume_wheel::hotkey::{
    build_hotkey_spec, is_modifier, parse_hotkey, vk_to_string, Modifiers, MOD_ALT, MOD_CONTROL,
    MOD_NOREPEAT, MOD_SHIFT, MOD_WIN,
};

const NONE: Modifiers = Modifiers {
    ctrl: false,
    shift: false,
    alt: false,
    win: false,
};

#[test]
fn default_hotkey_is_read() {
    assert_eq!(
        parse_hotkey("ctrl+shift+alt+v"),
        Some((MOD_NOREPEAT | MOD_CONTROL | MOD_SHIFT | MOD_ALT, 0x56))
    );
}

#[test]
fn names_of_modifiers_have_synonyms() {
    assert_eq!(parse_hotkey("control+1"), parse_hotkey("ctrl+1"));
    assert_eq!(parse_hotkey("super+1"), parse_hotkey("win+1"));
    assert_eq!(parse_hotkey("win+1"), Some((MOD_NOREPEAT | MOD_WIN, 0x31)));
}

#[test]
fn function_keys_reach_from_1_to_24() {
    assert_eq!(parse_hotkey("f1"), Some((MOD_NOREPEAT, 0x70)));
    assert_eq!(parse_hotkey("f24"), Some((MOD_NOREPEAT, 0x87)));
    assert_eq!(parse_hotkey("f0"), None);
    assert_eq!(parse_hotkey("f25"), None);
    assert_eq!(parse_hotkey("fx"), None);
    assert_eq!(parse_hotkey("f"), Some((MOD_NOREPEAT, 0x46)));
}

#[test]
fn case_and_blanks_do_not_matter() {
    assert_eq!(
        parse_hotkey(" CTRL + Shift + V "),
        Some((MOD_NOREPEAT | MOD_CONTROL | MOD_SHIFT, 0x56))
    );
    assert_eq!(parse_hotkey("CTRL+F5"), parse_hotkey("ctrl+f5"));
}

#[test]
fn the_last_key_counts() {
    assert_eq!(parse_hotkey("a+b"), Some((MOD_NOREPEAT, 0x42)));
    assert_eq!(parse_hotkey("a+ctrl"), Some((MOD_NOREPEAT | MOD_CONTROL, 0x41)));
}

#[test]
fn what_is_no_hotkey_is_refused() {
    assert_eq!(parse_hotkey(""), None);
    assert_eq!(parse_hotkey("ctrl"), None);
    assert_eq!(parse_hotkey("ctrl+"), None);
    assert_eq!(parse_hotkey("ctrl+é"), None);
    assert_eq!(parse_hotkey("ctrl+-"), None);
    assert_eq!(parse_hotkey("ctrl+space"), None);
}

#[test]
fn modifiers_are_known() {
    for vk in [0x10u32, 0x11, 0x12, 0xA0, 0xA1, 0xA2, 0xA3, 0xA4, 0xA5, 0x5B, 0x5C] {
        assert!(is_modifier(vk));
        assert_eq!(build_hotkey_spec(Modifiers { ctrl: true, ..NONE }, vk), None);
    }
    assert!(!is_modifier(0x41));
    assert!(!is_modifier(0x1B));
}

#[test]
fn keys_are_written() {
    assert_eq!(vk_to_string(0x30).as_deref(), Some("0"));
    assert_eq!(vk_to_string(0x5A).as_deref(), Some("z"));
    assert_eq!(vk_to_string(0x70).as_deref(), Some("f1"));
    assert_eq!(vk_to_string(0x87).as_deref(), Some("f24"));
    assert_eq!(vk_to_string(0x88), None);
    assert_eq!(vk_to_string(0x20), None);
}

#[test]
fn combinations_are_written_in_order() {
    let all = Modifiers {
        ctrl: true,
        shift: true,
        alt: true,
        win: true,
    };
    assert_eq!(build_hotkey_spec(all, 0x56).as_deref(), Some("ctrl+shift+alt+win+v"));
    assert_eq!(
        build_hotkey_spec(Modifiers { alt: true, ..NONE }, 0x71).as_deref(),
        Some("alt+f2")
    );
}

#[test]
fn a_key_alone_is_no_combination() {
    assert_eq!(build_hotkey_spec(NONE, 0x56), None);
}

#[test]
fn a_recorded_combination_is_read_as_it_was_pressed() {
    let m = Modifiers {
        ctrl: true,
        shift: false,
        alt: true,
        win: false,
    };
    for vk in [0x30u32, 0x46, 0x5A, 0x70, 0x7B, 0x87] {
        let text = build_hotkey_spec(m, vk).unwrap();
        assert_eq!(
            parse_hotkey(&text),
            Some((MOD_NOREPEAT | MOD_CONTROL | MOD_ALT, vk))
        );
    }
}

#[test]
fn order_repetition_and_second_names_do_not_matter() {
    let usual = parse_hotkey("ctrl+win+k");
    assert_eq!(usual, Some((MOD_NOREPEAT | MOD_CONTROL | MOD_WIN, 0x4B)));
    for text in ["win+ctrl+k", "k+win+ctrl", "ctrl+ctrl+win+k", " Super + CONTROL+K", "control+k+super"] {
        assert_eq!(parse_hotkey(text), usual);
    }
}

#[test]
fn a_key_alone_is_read_as_that_key() {
    for vk in [0x30u32, 0x46, 0x5A, 0x70, 0x87] {
        assert_eq!(parse_hotkey(&vk_to_string(vk).unwrap()), Some((MOD_NOREPEAT, vk)));
    }
}
