use goxlr_volume_wheel::config::{channel_index, Config, ALL_CHANNELS};
use goxlr_volume_wheel::visibility::{
    apply_edit, cycle_next, insert_visible_canonical, remove_visible, set_favorite, toggle_visible,
    visible_channels, ConfigEdit,
};

fn names(list: &[&str]) -> Vec<String> {
    list.iter().map(|s| s.to_string()).collect()
}

fn config(default: &str, visible: &[&str]) -> Config {
    Config {
        default_channel: default.to_string(),
        visible_channels: names(visible),
        cycle_hotkey: None,
    }
}

#[test]
fn insertion_keeps_the_order_of_all_channels() {
    let mut v = names(&["Mic", "Game", "LineOut"]);
    insert_visible_canonical(&mut v, "Chat");
    assert_eq!(v, vec!["Mic", "Game", "Chat", "LineOut"]);
    let mut v = names(&[]);
    insert_visible_canonical(&mut v, "Music");
    assert_eq!(v, vec!["Music"]);
    let mut v = names(&["Game"]);
    insert_visible_canonical(&mut v, "LineOut");
    assert_eq!(v, vec!["Game", "LineOut"]);
}

#[test]
fn removal_takes_every_occurrence() {
    assert_eq!(
        remove_visible(&names(&["Game", "Chat", "Game"]), "Game"),
        vec!["Chat"]
    );
}

#[test]
fn favorite_becomes_visible() {
    let mut c = config("Game", &["Game", "Music"]);
    set_favorite(&mut c, 5);
    assert_eq!(c.default_channel, "Chat");
    assert_eq!(c.visible_channels, vec!["Game", "Chat", "Music"]);
    set_favorite(&mut c, 4);
    assert_eq!(c.default_channel, "Game");
    assert_eq!(c.visible_channels, vec!["Game", "Chat", "Music"]);
}

#[test]
fn last_visible_channel_cannot_be_hidden() {
    let mut c = config("Game", &["Game"]);
    assert!(!toggle_visible(&mut c, 4));
    assert_eq!(c.visible_channels, vec!["Game"]);
}

#[test]
fn hiding_the_favorite_moves_it_to_the_first_visible() {
    let mut c = config("Game", &["Mic", "Game", "Chat"]);
    assert!(toggle_visible(&mut c, 4));
    assert_eq!(c.visible_channels, vec!["Mic", "Chat"]);
    assert_eq!(c.default_channel, "Mic");
}

#[test]
fn hiding_another_channel_keeps_the_favorite() {
    let mut c = config("Game", &["Mic", "Game", "Chat"]);
    assert!(toggle_visible(&mut c, 5));
    assert_eq!(c.visible_channels, vec!["Mic", "Game"]);
    assert_eq!(c.default_channel, "Game");
}

#[test]
fn toggling_twice_changes_nothing() {
    let mut c = config("Game", &["Mic", "Game", "Chat"]);
    toggle_visible(&mut c, 5);
    toggle_visible(&mut c, 5);
    assert_eq!(c.visible_channels, vec!["Mic", "Game", "Chat"]);
    assert_eq!(c.default_channel, "Game");
    toggle_visible(&mut c, 7);
    toggle_visible(&mut c, 7);
    assert_eq!(c.visible_channels, vec!["Mic", "Game", "Chat"]);
}

#[test]
fn edits_tell_whether_to_save() {
    let mut c = config("Game", &["Game"]);
    assert!(!apply_edit(&mut c, ConfigEdit::ToggleVisible(4)));
    assert!(apply_edit(&mut c, ConfigEdit::Favorite(0)));
    assert_eq!(c.visible_channels, vec!["Mic", "Game"]);
    assert!(apply_edit(&mut c, ConfigEdit::Hotkey("alt+f2".to_string())));
    assert_eq!(c.cycle_hotkey.as_deref(), Some("alt+f2"));
    assert_eq!(c.default_channel, "Mic");
}

#[test]
fn edits_keep_the_favorite_visible_and_the_order() {
    let mut c = Config::default();
    for i in [4usize, 0, 10, 3, 4, 4, 7, 2, 0] {
        apply_edit(&mut c, ConfigEdit::ToggleVisible(i));
        apply_edit(&mut c, ConfigEdit::Favorite((i * 3) % 11));
        assert!(c.visible_channels.contains(&c.default_channel));
        let places: Vec<usize> = c.visible_channels.iter().map(|n| channel_index(n)).collect();
        for k in 1..places.len() {
            assert!(places[k - 1] < places[k]);
        }
    }
}

#[test]
fn menu_lists_the_visible_channels_in_order() {
    assert_eq!(
        visible_channels(&names(&["LineOut", "Game", "bogus", "Game", "Mic"])),
        vec!["Mic", "Game", "LineOut"]
    );
    assert_eq!(visible_channels(&names(&ALL_CHANNELS)), ALL_CHANNELS.to_vec());
    assert_eq!(visible_channels(&Vec::new()), Vec::<&str>::new());
}

#[test]
fn cycling_goes_round() {
    let v = names(&["Mic", "Game", "Music"]);
    assert_eq!(cycle_next(0, &v), Some(4));
    assert_eq!(cycle_next(4, &v), Some(7));
    assert_eq!(cycle_next(7, &v), Some(0));
    let mut at = 4;
    for _ in 0..3 {
        at = cycle_next(at, &v).unwrap();
    }
    assert_eq!(at, 4);
}

#[test]
fn cycling_from_a_hidden_channel_starts_over() {
    assert_eq!(cycle_next(10, &names(&["Game", "Music"])), Some(4));
    assert_eq!(cycle_next(99, &names(&["Game", "Music"])), Some(4));
}

#[test]
fn cycling_needs_a_visible_channel() {
    assert_eq!(cycle_next(4, &Vec::new()), None);
}

#[test]
fn unknown_visible_name_stands_for_the_first_channel() {
    assert_eq!(cycle_next(4, &names(&["Game", "bogus"])), Some(0));
}
