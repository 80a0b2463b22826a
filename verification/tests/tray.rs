use goxlr_volume_wheel::hotkey::{MOD_ALT, MOD_CONTROL, MOD_NOREPEAT, MOD_SHIFT};
use goxlr_volume_wheel::tray::{
    apply_status, build_menu, on_icon_event, pause_hotkey, register_cycle_hotkey, resume_hotkey,
    start, Effect, IconEvent, Input, MenuEntry, Status, Tray, CYCLE_HOTKEY_ID, STATUS_TIMER_ID,
    WM_HOTKEY, WM_HOTKEY_PAUSE, WM_HOTKEY_RESUME, WM_TIMER,
};

fn names(list: &[&str]) -> Vec<String> {
    list.iter().map(|s| s.to_string()).collect()
}

fn step(tray: &mut Tray, msg: u32, w_param: usize, active: usize, visible: &[&str]) -> Vec<Effect> {
    let visible = names(visible);
    tray.run(&Input {
        msg,
        w_param,
        active,
        connected: true,
        visible: &visible,
        hotkey: Some("ctrl+shift+alt+v"),
    })
}

fn online(channel: &str) -> Effect {
    Effect::SetStatus(Status {
        connected: true,
        text: "GoXLR Utility: connected",
        tooltip: format!("GoXLR Volume Wheel — {}", channel),
    })
}

#[test]
fn messages_go_to_a_running_thread_only() {
    assert_eq!(pause_hotkey(0), None);
    assert_eq!(resume_hotkey(0), None);
    assert_eq!(pause_hotkey(5), Some(0x8005));
    assert_eq!(resume_hotkey(5), Some(0x8006));
}

#[test]
fn menu_lists_channels_between_its_fixed_entries() {
    assert_eq!(
        build_menu(&vec!["Mic", "Game"], "Game"),
        vec![
            MenuEntry::Label("GoXLR Volume Wheel — channel"),
            MenuEntry::Separator,
            MenuEntry::Channel { name: "Mic", checked: false },
            MenuEntry::Channel { name: "Game", checked: true },
            MenuEntry::Separator,
            MenuEntry::Status("GoXLR Utility: connecting…"),
            MenuEntry::Settings("Settings…"),
            MenuEntry::Separator,
            MenuEntry::Quit("Quit"),
        ]
    );
    assert_eq!(build_menu(&Vec::new(), "Game").len(), 7);
}

#[test]
fn status_tells_of_the_connection() {
    assert_eq!(Effect::SetStatus(apply_status(true, "Chat")), online("Chat"));
    let offline = apply_status(false, "Chat");
    assert!(!offline.connected);
    assert_eq!(offline.text, "GoXLR Utility: offline — is the daemon running?");
    assert_eq!(offline.tooltip, "GoXLR Volume Wheel — Chat (offline)");
}

#[test]
fn tray_starts_offline() {
    let s = start(4, &names(&["Game", "Mic"]));
    assert_eq!(s.tooltip, "GoXLR Volume Wheel — Game (connecting…)");
    assert_eq!(s.status, apply_status(false, "Game"));
    assert_eq!(s.menu[2], MenuEntry::Channel { name: "Mic", checked: false });
    assert_eq!(s.menu[3], MenuEntry::Channel { name: "Game", checked: true });
    assert_eq!(s.tray.visible, vec!["Mic", "Game"]);
    assert_eq!(s.tray.last_connected, None);
    assert_eq!(s.tray.last_idx, 4);
    assert!(!s.tray.cycle_registered);
}

#[test]
fn timer_shows_the_connection_once() {
    let mut t = start(4, &names(&["Mic", "Game"])).tray;
    let e = step(&mut t, WM_TIMER, STATUS_TIMER_ID, 4, &["Mic", "Game"]);
    assert_eq!(e, vec![online("Game")]);
    assert_eq!(t.last_connected, Some(true));
    let e = step(&mut t, WM_TIMER, STATUS_TIMER_ID, 4, &["Mic", "Game"]);
    assert_eq!(e, vec![]);
    let e = step(&mut t, WM_TIMER, 9, 0, &["Game"]);
    assert_eq!(e, vec![]);
}

#[test]
fn timer_follows_the_active_channel() {
    let mut t = start(4, &names(&["Mic", "Game"])).tray;
    let e = step(&mut t, WM_TIMER, STATUS_TIMER_ID, 0, &["Mic", "Game"]);
    assert_eq!(e, vec![Effect::SetChecks("Mic"), online("Mic")]);
    assert_eq!(t.last_idx, 0);
}

#[test]
fn timer_follows_the_visible_channels() {
    let mut t = start(4, &names(&["Mic", "Game"])).tray;
    let e = step(&mut t, WM_TIMER, STATUS_TIMER_ID, 5, &["Game", "Chat"]);
    assert_eq!(
        e,
        vec![
            Effect::SetMenu(build_menu(&vec!["Game", "Chat"], "Chat")),
            online("Chat")
        ]
    );
    assert_eq!(t.visible, vec!["Game", "Chat"]);
    let e = step(&mut t, WM_TIMER, STATUS_TIMER_ID, 5, &["Chat", "Game"]);
    assert_eq!(e, vec![]);
}

#[test]
fn hotkey_is_registered_reported_and_released() {
    let mut t = start(4, &names(&["Game"])).tray;
    let attempt = Effect::RegisterHotkey {
        text: "ctrl+shift+alt+v".to_string(),
        mods: MOD_NOREPEAT | MOD_CONTROL | MOD_SHIFT | MOD_ALT,
        vk: 0x56,
    };
    let e = step(&mut t, WM_HOTKEY_RESUME, 0, 4, &["Game"]);
    assert_eq!(e.len(), 1);
    assert_eq!(e[0], attempt);
    assert_eq!(
        t.hotkey_registered("ctrl+shift+alt+v", true),
        Effect::LogInfo("cycle hotkey registered: ctrl+shift+alt+v".to_string())
    );
    assert!(t.cycle_registered);
    let e = step(&mut t, WM_HOTKEY_RESUME, 0, 4, &["Game"]);
    assert_eq!(e, vec![Effect::UnregisterHotkey, attempt]);
    assert!(!t.cycle_registered);
    assert_eq!(
        t.hotkey_registered("ctrl+shift+alt+v", false),
        Effect::LogError("cycle hotkey already in use: ctrl+shift+alt+v".to_string())
    );
    assert!(!t.cycle_registered);
    assert_eq!(step(&mut t, WM_HOTKEY_PAUSE, 0, 4, &["Game"]), vec![]);
    t.cycle_registered = true;
    assert_eq!(
        step(&mut t, WM_HOTKEY_PAUSE, 0, 4, &["Game"]),
        vec![Effect::UnregisterHotkey]
    );
    assert!(!t.cycle_registered);
}

#[test]
fn hotkey_may_be_absent_or_malformed() {
    assert_eq!(register_cycle_hotkey(None), None);
    assert_eq!(
        register_cycle_hotkey(Some("ctrl+")),
        Some(Effect::LogError("cycle_hotkey malformed: ctrl+".to_string()))
    );
}

#[test]
fn cycle_hotkey_moves_on_and_shows_it() {
    let mut t = start(4, &names(&["Mic", "Game"])).tray;
    let e = step(&mut t, WM_HOTKEY, CYCLE_HOTKEY_ID as usize, 4, &["Mic", "Game"]);
    assert_eq!(
        e,
        vec![
            Effect::StoreActive(0),
            Effect::SetChecks("Mic"),
            online("Mic"),
            Effect::ShowSwitch("Mic"),
        ]
    );
    assert_eq!(t.last_idx, 0);
    let e = step(&mut t, WM_HOTKEY, CYCLE_HOTKEY_ID as usize, 4, &[]);
    assert_eq!(e, vec![]);
    let e = step(&mut t, WM_HOTKEY, 7, 4, &["Mic"]);
    assert_eq!(e, vec![]);
}

#[test]
fn hotkey_number_stands_in_the_low_bits() {
    let mut t = start(4, &names(&["Mic", "Game"])).tray;
    let high = (CYCLE_HOTKEY_ID as u64 | 0x7_0000_0000) as usize;
    let e = step(&mut t, WM_HOTKEY, high, 4, &["Mic", "Game"]);
    assert_eq!(e[0], Effect::StoreActive(0));
}

#[test]
fn a_stale_connection_may_stay_until_it_changes_again() {
    let visible = names(&["Mic", "Game"]);
    let mut t = start(4, &visible).tray;
    let mut at = |msg, w_param, active, connected| {
        t.run(&Input { msg, w_param, active, connected, visible: &visible, hotkey: None })
    };
    assert_eq!(at(WM_TIMER, STATUS_TIMER_ID, 4, true).len(), 1);
    let e = at(WM_HOTKEY, CYCLE_HOTKEY_ID as usize, 4, false);
    assert_eq!(e[2], Effect::SetStatus(apply_status(false, "Mic")));
    assert_eq!(at(WM_TIMER, STATUS_TIMER_ID, 0, true), vec![]);
}

#[test]
fn left_clicks_open_the_settings() {
    assert!(on_icon_event(IconEvent::Click { left: true, released: true }));
    assert!(on_icon_event(IconEvent::DoubleClick { left: true }));
    assert!(!on_icon_event(IconEvent::Click { left: true, released: false }));
    assert!(!on_icon_event(IconEvent::Click { left: false, released: true }));
    assert!(!on_icon_event(IconEvent::DoubleClick { left: false }));
    assert!(!on_icon_event(IconEvent::Other));
}

#[test]
fn menu_choices() {
    let mut t = start(4, &names(&["Mic", "Game"])).tray;
    assert_eq!(t.on_menu(MenuEntry::Settings("Settings…"), true), vec![Effect::OpenSettings]);
    assert_eq!(
        t.on_menu(MenuEntry::Channel { name: "Mic", checked: false }, true),
        vec![Effect::StoreActive(0), Effect::SetChecks("Mic"), online("Mic")]
    );
    assert_eq!(t.last_idx, 0);
    assert_eq!(t.on_menu(MenuEntry::Separator, true), vec![]);
    assert_eq!(t.on_menu(MenuEntry::Label("x"), true), vec![]);
    assert_eq!(t.on_menu(MenuEntry::Status("x"), true), vec![]);
    assert_eq!(t.on_menu(MenuEntry::Quit("Quit"), true), vec![Effect::Exit]);
    t.cycle_registered = true;
    assert_eq!(
        t.on_menu(MenuEntry::Quit("Quit"), true),
        vec![Effect::UnregisterHotkey, Effect::Exit]
    );
}

#[test]
fn tray_cleans_up() {
    let mut t = start(4, &names(&["Game"])).tray;
    assert_eq!(t.finish(), vec![Effect::StopTimer]);
    t.cycle_registered = true;
    assert_eq!(t.finish(), vec![Effect::UnregisterHotkey, Effect::StopTimer]);
}
