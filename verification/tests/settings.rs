use goxlr_volume_wheel::draw::Rect;
use goxlr_volume_wheel::hotkey::Modifiers;
use goxlr_volume_wheel::settings::{
    autostart_done, center_on_active_monitor, handle_action, mouse_point, open, painted, region_at,
    wndproc, Action, Answer, Effect, HelpLang, HitRegion, Input, OpenSettings, Pointer,
    WindowState, WM_BRING_FRONT, WM_DESTROY, WM_ERASEBKGND, WM_KEYDOWN, WM_LBUTTONDOWN,
    WM_MOUSELEAVE, WM_MOUSEMOVE, WM_PAINT, WM_SETCURSOR, WM_TIMER,
};
use goxlr_volume_wheel::visibility::ConfigEdit;

const NO_KEYS: Modifiers = Modifiers {
    ctrl: false,
    shift: false,
    alt: false,
    win: false,
};

fn message(msg: u32, w_param: usize, l_param: isize) -> Input {
    Input {
        msg,
        w_param,
        l_param,
        keys: NO_KEYS,
        active: 4,
    }
}

fn at(x: i16, y: i16) -> isize {
    ((y as u16 as isize) << 16) | (x as u16 as isize)
}

fn window() -> WindowState {
    let mut w = WindowState::new(false, 4);
    painted(
        &mut w,
        vec![
            HitRegion {
                rect: Rect { left: 0, top: 0, right: 10, bottom: 10 },
                action: Action::SetActive(2),
            },
            HitRegion {
                rect: Rect { left: 5, top: 5, right: 20, bottom: 20 },
                action: Action::RecordHotkey,
            },
        ],
    );
    w
}

#[test]
fn there_is_one_settings_window() {
    assert_eq!(open(0), OpenSettings::Create);
    assert_eq!(open(77), OpenSettings::Post(WM_BRING_FRONT));
}

#[test]
fn window_is_centered() {
    let work = Rect { left: 100, top: 0, right: 1100, bottom: 901 };
    assert_eq!(center_on_active_monitor(Some(work), 476, 820), (362, 40));
    assert_eq!(center_on_active_monitor(None, 476, 820), (200, 200));
}

#[test]
fn a_larger_window_hangs_over_both_sides() {
    let work = Rect { left: 0, top: 0, right: 100, bottom: 100 };
    assert_eq!(center_on_active_monitor(Some(work), 103, 200), (-1, -50));
}

#[test]
fn mouse_coordinates_are_signed_words() {
    assert_eq!(mouse_point(at(7, 9)), (7, 9));
    assert_eq!(mouse_point(at(-3, -1)), (-3, -1));
    assert_eq!(mouse_point(-1), (-1, -1));
    assert_eq!(mouse_point(0x7FFF_8000), (-32768, 32767));
}

#[test]
fn the_first_region_under_a_point_is_hit() {
    let w = window();
    assert_eq!(region_at(&w.regions, 7, 7), Some(0));
    assert_eq!(region_at(&w.regions, 12, 7), Some(1));
    assert_eq!(region_at(&w.regions, 20, 20), None);
}

#[test]
fn selecting_a_channel_is_transient() {
    let mut w = window();
    let e = handle_action(&mut w, Action::SetActive(3));
    assert_eq!(e, vec![Effect::StoreActive(3), Effect::Repaint]);
    assert_eq!(w.last_seen_active, 3);
}

#[test]
fn starring_and_hiding_edit_the_configuration() {
    let mut w = window();
    assert_eq!(
        handle_action(&mut w, Action::SetFavorite(5)),
        vec![Effect::Edit(ConfigEdit::Favorite(5)), Effect::Repaint]
    );
    assert_eq!(
        handle_action(&mut w, Action::ToggleVisible(6)),
        vec![Effect::Edit(ConfigEdit::ToggleVisible(6)), Effect::Repaint]
    );
    assert_eq!(w.last_seen_active, 4);
}

#[test]
fn recording_is_switched_on_and_off() {
    let mut w = window();
    assert_eq!(
        handle_action(&mut w, Action::RecordHotkey),
        vec![Effect::PauseHotkey, Effect::Focus, Effect::Repaint]
    );
    assert!(w.recording);
    assert_eq!(
        handle_action(&mut w, Action::RecordHotkey),
        vec![Effect::ResumeHotkey, Effect::Focus, Effect::Repaint]
    );
    assert!(!w.recording);
}

#[test]
fn autostart_follows_success_only() {
    let mut w = window();
    assert_eq!(
        handle_action(&mut w, Action::ToggleAutostart),
        vec![Effect::SetAutostart(true), Effect::Repaint]
    );
    assert!(!w.autostart);
    autostart_done(&mut w, true, false);
    assert!(!w.autostart);
    autostart_done(&mut w, true, true);
    assert!(w.autostart);
    assert_eq!(
        handle_action(&mut w, Action::ToggleAutostart),
        vec![Effect::SetAutostart(false), Effect::Repaint]
    );
}

#[test]
fn buttons_ask_for_what_they_say() {
    let mut w = window();
    assert_eq!(handle_action(&mut w, Action::ReinstallHook), vec![Effect::Rehook]);
    assert_eq!(handle_action(&mut w, Action::OpenLogFolder), vec![Effect::OpenLogFolder]);
    assert_eq!(
        handle_action(&mut w, Action::OpenConfigFolder),
        vec![Effect::OpenConfigFolder]
    );
}

#[test]
fn help_opens_changes_language_and_closes() {
    let mut w = window();
    w.hovered = Some(1);
    assert_eq!(handle_action(&mut w, Action::OpenHelp), vec![Effect::Repaint]);
    assert!(w.show_help);
    assert_eq!(w.hovered, None);
    w.hovered = Some(1);
    handle_action(&mut w, Action::SetHelpLang(HelpLang::Fr));
    assert_eq!(w.help_lang, HelpLang::Fr);
    assert_eq!(w.hovered, Some(1));
    handle_action(&mut w, Action::CloseHelp);
    assert!(!w.show_help);
    assert_eq!(w.hovered, None);
}

#[test]
fn moving_the_mouse_hovers() {
    let mut w = window();
    let r = wndproc(&mut w, message(WM_MOUSEMOVE, 0, at(12, 7)));
    assert_eq!(r.effects, vec![Effect::TrackMouse, Effect::Repaint]);
    assert_eq!(r.answer, Answer::Return(0));
    assert_eq!(w.hovered, Some(1));
    let r = wndproc(&mut w, message(WM_MOUSEMOVE, 0, at(13, 7)));
    assert_eq!(r.effects, vec![]);
    let r = wndproc(&mut w, message(WM_MOUSEMOVE, 0, at(99, 7)));
    assert_eq!(r.effects, vec![Effect::Repaint]);
    assert_eq!(w.hovered, None);
}

#[test]
fn leaving_the_window_ends_the_hover() {
    let mut w = window();
    wndproc(&mut w, message(WM_MOUSEMOVE, 0, at(1, 1)));
    let r = wndproc(&mut w, message(WM_MOUSELEAVE, 0, 0));
    assert_eq!(r.effects, vec![Effect::Repaint]);
    assert!(!w.mouse_tracking);
    assert_eq!(w.hovered, None);
    let r = wndproc(&mut w, message(WM_MOUSELEAVE, 0, 0));
    assert_eq!(r.effects, vec![]);
}

#[test]
fn pointer_is_a_hand_over_regions() {
    let mut w = window();
    let r = wndproc(&mut w, message(WM_SETCURSOR, 0, 0));
    assert_eq!(r.effects, vec![Effect::SetPointer(Pointer::Arrow)]);
    assert_eq!(r.answer, Answer::Return(1));
    wndproc(&mut w, message(WM_MOUSEMOVE, 0, at(1, 1)));
    let r = wndproc(&mut w, message(WM_SETCURSOR, 0, 0));
    assert_eq!(r.effects, vec![Effect::SetPointer(Pointer::Hand)]);
}

#[test]
fn clicking_acts_on_the_region() {
    let mut w = window();
    let r = wndproc(&mut w, message(WM_LBUTTONDOWN, 0, at(1, 1)));
    assert_eq!(r.effects, vec![Effect::StoreActive(2), Effect::Repaint]);
    let r = wndproc(&mut w, message(WM_LBUTTONDOWN, 0, at(99, 99)));
    assert_eq!(r.effects, vec![]);
}

#[test]
fn clicking_beside_everything_ends_a_recording() {
    let mut w = window();
    wndproc(&mut w, message(WM_LBUTTONDOWN, 0, at(12, 12)));
    assert!(w.recording);
    let r = wndproc(&mut w, message(WM_LBUTTONDOWN, 0, at(99, 99)));
    assert_eq!(r.effects, vec![Effect::ResumeHotkey, Effect::Repaint]);
    assert!(!w.recording);
}

#[test]
fn a_combination_is_recorded_before_the_hotkey_resumes() {
    let mut w = window();
    w.recording = true;
    let keys = Modifiers { ctrl: true, alt: true, ..NO_KEYS };
    let r = wndproc(&mut w, Input { keys, ..message(WM_KEYDOWN, 0xA2, 0) });
    assert_eq!(r.effects, vec![]);
    assert!(w.recording);
    let r = wndproc(&mut w, Input { keys, ..message(WM_KEYDOWN, 0x4B, 0) });
    assert_eq!(
        r.effects,
        vec![
            Effect::Edit(ConfigEdit::Hotkey("ctrl+alt+k".to_string())),
            Effect::ResumeHotkey,
            Effect::Repaint,
        ]
    );
    assert!(!w.recording);
}

#[test]
fn a_key_alone_or_escape_only_ends_the_recording() {
    for vk in [0x1Busize, 0x4B, 0x20] {
        let mut w = window();
        w.recording = true;
        let r = wndproc(&mut w, message(WM_KEYDOWN, vk, 0));
        assert_eq!(r.effects, vec![Effect::ResumeHotkey, Effect::Repaint]);
        assert!(!w.recording);
    }
}

#[test]
fn keys_are_left_alone_without_a_recording() {
    let mut w = window();
    let r = wndproc(&mut w, message(WM_KEYDOWN, 0x4B, 0));
    assert_eq!(r.effects, vec![]);
    assert_eq!(r.answer, Answer::Default);
}

#[test]
fn the_timer_notices_another_active_channel() {
    let mut w = window();
    let r = wndproc(&mut w, message(WM_TIMER, 1, 0));
    assert_eq!(r.effects, vec![]);
    let r = wndproc(&mut w, Input { active: 7, ..message(WM_TIMER, 1, 0) });
    assert_eq!(r.effects, vec![Effect::Repaint]);
    assert_eq!(w.last_seen_active, 7);
    let r = wndproc(&mut w, message(WM_TIMER, 2, 0));
    assert_eq!(r.answer, Answer::Default);
}

#[test]
fn remaining_messages_of_the_window() {
    let mut w = window();
    let r = wndproc(&mut w, message(WM_ERASEBKGND, 0, 0));
    assert_eq!((r.effects, r.answer), (vec![], Answer::Return(1)));
    let r = wndproc(&mut w, message(WM_PAINT, 0, 0));
    assert_eq!((r.effects, r.answer), (vec![Effect::Paint], Answer::Return(0)));
    let r = wndproc(&mut w, message(WM_BRING_FRONT, 0, 0));
    assert_eq!((r.effects, r.answer), (vec![Effect::BringToFront], Answer::Return(0)));
    let r = wndproc(&mut w, message(0x9999, 0, 0));
    assert_eq!((r.effects, r.answer), (vec![], Answer::Default));
    let r = wndproc(&mut w, message(WM_DESTROY, 0, 0));
    assert_eq!(r.effects, vec![Effect::Close]);
    w.recording = true;
    let r = wndproc(&mut w, message(WM_DESTROY, 0, 0));
    assert_eq!(r.effects, vec![Effect::ResumeHotkey, Effect::Close]);
}
