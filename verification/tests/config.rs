use goxlr_volume_wheel::config::{
    after_write, channel_index, channel_name, find_channel, is_visible, load, Config, ConfigSource,
    SaveNext, ALL_CHANNELS,
};

#[test]
fn known_names_have_their_place() {
    assert_eq!(channel_index("Mic"), 0);
    assert_eq!(channel_index("Game"), 4);
    assert_eq!(channel_index("LineOut"), 10);
}

#[test]
fn unknown_name_falls_back_to_the_first_channel() {
    assert_eq!(channel_index("nope"), 0);
    assert_eq!(channel_index(""), 0);
    assert_eq!(channel_index("game"), 0);
    assert_eq!(find_channel("nope"), None);
    assert_eq!(find_channel("MicMonitor"), Some(9));
}

#[test]
fn index_out_of_range_falls_back_to_the_first_name() {
    assert_eq!(channel_name(7), "Music");
    assert_eq!(channel_name(11), "Mic");
    assert_eq!(channel_name(usize::MAX), "Mic");
}

#[test]
fn every_name_and_index_lead_back_to_each_other() {
    for i in 0..ALL_CHANNELS.len() {
        assert_eq!(channel_index(channel_name(i)), i);
        assert_eq!(channel_name(channel_index(ALL_CHANNELS[i])), ALL_CHANNELS[i]);
    }
}

#[test]
fn default_config_shows_everything_and_starts_with_game() {
    let c = Config::default();
    assert_eq!(c.default_channel, "Game");
    assert_eq!(c.visible_channels, ALL_CHANNELS.to_vec());
    assert_eq!(c.cycle_hotkey.as_deref(), Some("ctrl+shift+alt+v"));
}

#[test]
fn visibility_is_looked_up_by_name() {
    let visible = vec!["Game".to_string(), "Chat".to_string()];
    assert!(is_visible(&visible, "Chat"));
    assert!(!is_visible(&visible, "Music"));
    assert!(!is_visible(&Vec::new(), "Chat"));
}

#[test]
fn without_a_place_the_defaults_are_not_written() {
    let l = load(ConfigSource::NoPath);
    assert_eq!(l.config.default_channel, "Game");
    assert!(!l.save);
    assert_eq!(l.error, None);
}

#[test]
fn missing_file_is_created_with_the_defaults() {
    let l = load(ConfigSource::Unreadable);
    assert_eq!(l.config.visible_channels.len(), 11);
    assert!(l.save);
    assert_eq!(l.error, None);
}

#[test]
fn malformed_file_is_logged_and_replaced() {
    let l = load(ConfigSource::Malformed("EOF while parsing".to_string()));
    assert_eq!(l.config.default_channel, "Game");
    assert!(l.save);
    assert_eq!(
        l.error.as_deref(),
        Some("config parse failed (EOF while parsing), restoring defaults")
    );
}

#[test]
fn parsed_file_is_taken_as_it_is() {
    let c = Config {
        default_channel: "Chat".to_string(),
        visible_channels: vec!["Chat".to_string()],
        cycle_hotkey: None,
    };
    let l = load(ConfigSource::Parsed(c));
    assert_eq!(l.config.default_channel, "Chat");
    assert_eq!(l.config.visible_channels, vec!["Chat"]);
    assert_eq!(l.config.cycle_hotkey, None);
    assert!(!l.save);
    assert_eq!(l.error, None);
}

#[test]
fn only_a_whole_file_takes_the_place_of_the_old_one() {
    assert_eq!(after_write(true), SaveNext::Rename);
    assert_eq!(after_write(false), SaveNext::GiveUp);
}
