use goxlr_volume_wheel::draw::{DrawOp, Font, Layout, Rect};
use goxlr_volume_wheel::osd::{
    apply_invisible, is_win11, paint, position, show, start, thread_main, try_yeet, win_event_proc,
    wndproc, OsdAction, OsdState, EVENT_OBJECT_SHOW, OBJID_WINDOW, WM_OSD_UPDATE, WM_PAINT,
    WM_TIMER, WS_EX_LAYERED,
};

fn rect(left: i32, top: i32, right: i32, bottom: i32) -> Rect {
    Rect { left, top, right, bottom }
}

fn shown(value: i32, max: i32) -> Vec<DrawOp> {
    paint(&OsdState { channel: "Game".to_string(), value, max })
}

fn percentage(ops: &[DrawOp]) -> &str {
    match &ops[2] {
        DrawOp::Text { text, .. } => text,
        _ => panic!("no text"),
    }
}

#[test]
fn display_shows_name_percentage_and_bar() {
    assert_eq!(
        shown(128, 255),
        vec![
            DrawOp::Fill { rect: rect(0, 0, 380, 64), color: 0x001F1F1F },
            DrawOp::Text {
                text: "Game".to_string(),
                font: Font::Osd,
                color: 0x00FFFFFF,
                rect: rect(18, 0, 128, 64),
                layout: Layout::Left,
            },
            DrawOp::Text {
                text: "50".to_string(),
                font: Font::Osd,
                color: 0x00FFFFFF,
                rect: rect(314, 0, 362, 64),
                layout: Layout::Right,
            },
            DrawOp::Fill { rect: rect(140, 29, 302, 35), color: 0x003C3C3C },
            DrawOp::Fill { rect: rect(140, 29, 221, 35), color: 0x00339CFB },
        ]
    );
}

#[test]
fn bar_is_full_at_the_maximum_and_absent_at_zero() {
    let full = shown(255, 255);
    assert_eq!(percentage(&full), "100");
    assert_eq!(
        full[4],
        DrawOp::Fill { rect: rect(140, 29, 302, 35), color: 0x00339CFB }
    );
    let empty = shown(0, 255);
    assert_eq!(percentage(&empty), "0");
    assert_eq!(empty.len(), 4);
}

#[test]
fn without_a_maximum_nothing_is_filled() {
    let ops = shown(7, 0);
    assert_eq!(percentage(&ops), "0");
    assert_eq!(ops.len(), 4);
}

#[test]
fn louder_never_shows_less() {
    let mut last = 0;
    for v in 0..=255 {
        let ops = shown(v, 255);
        let width = if ops.len() == 5 {
            match &ops[4] {
                DrawOp::Fill { rect, .. } => rect.right - rect.left,
                _ => panic!("no bar"),
            }
        } else {
            0
        };
        assert!(last <= width && width <= 162);
        last = width;
    }
    assert_eq!(last, 162);
}

#[test]
fn display_takes_in_what_to_show() {
    let mut s = start();
    assert_eq!((s.channel.as_str(), s.value, s.max), ("", 0, 255));
    s.show("Chat", 20, 255);
    assert_eq!((s.channel.as_str(), s.value, s.max), ("Chat", 20, 255));
    assert_eq!(show(0), None);
    assert_eq!(show(9), Some(WM_OSD_UPDATE));
}

#[test]
fn messages_of_the_display() {
    assert_eq!(thread_main(WM_OSD_UPDATE), OsdAction::Refresh);
    assert_eq!(thread_main(WM_PAINT), OsdAction::Default);
    assert_eq!(wndproc(WM_PAINT, 0), OsdAction::Paint);
    assert_eq!(wndproc(WM_TIMER, 1), OsdAction::Hide);
    assert_eq!(wndproc(WM_TIMER, 2), OsdAction::Sweep);
    assert_eq!(wndproc(WM_TIMER, 3), OsdAction::Default);
}

#[test]
fn windows_11_is_told_by_its_build() {
    assert!(is_win11(Some("22000")));
    assert!(is_win11(Some("26100")));
    assert!(!is_win11(Some("19045")));
    assert!(!is_win11(Some("")));
    assert!(!is_win11(Some("22000 ")));
    assert!(!is_win11(None));
}

#[test]
fn display_covers_that_of_the_system() {
    assert_eq!(position(1920, 1080, true), (770, 936));
    assert_eq!(position(1920, 1080, false), (770, 72));
    assert_eq!(position(379, 0, false), (0, 72));
}

#[test]
fn only_shown_windows_are_looked_at() {
    assert!(win_event_proc(EVENT_OBJECT_SHOW, OBJID_WINDOW, true));
    assert!(!win_event_proc(EVENT_OBJECT_SHOW, OBJID_WINDOW, false));
    assert!(!win_event_proc(EVENT_OBJECT_SHOW, -4, true));
    assert!(!win_event_proc(0x8003, OBJID_WINDOW, true));
}

#[test]
fn the_systems_display_is_hidden() {
    let v = try_yeet("NativeHWNDHost", Some(rect(-10, 20, 390, 84)));
    assert_eq!(
        v.probe.as_deref(),
        Some("[osd-probe] class=NativeHWNDHost size=400x64 pos=(-10,20)")
    );
    assert_eq!(v.hide.as_deref(), Some("[osd-yeet] class=NativeHWNDHost 400x64"));
}

#[test]
fn windows_of_other_sizes_are_only_logged() {
    for r in [
        rect(0, 0, 400, 20),
        rect(0, 0, 400, 300),
        rect(0, 0, 100, 64),
        rect(0, 0, 800, 64),
    ] {
        let v = try_yeet("XamlExplorerHostIslandWindow", Some(r));
        assert!(v.probe.is_some());
        assert_eq!(v.hide, None);
    }
    assert!(try_yeet("Windows.UI.Core.CoreWindow", Some(rect(0, 0, 101, 21))).hide.is_some());
    assert!(try_yeet("Windows.UI.Core.CoreWindow", Some(rect(0, 0, 799, 299))).hide.is_some());
}

#[test]
fn windows_of_other_classes_are_left_alone() {
    let v = try_yeet("Notepad", Some(rect(0, 0, 400, 64)));
    assert_eq!((v.probe, v.hide), (None, None));
    let v = try_yeet("NativeHWNDHost", None);
    assert_eq!((v.probe, v.hide), (None, None));
}

#[test]
fn a_window_is_made_layered_once() {
    assert_eq!(apply_invisible(0x10), Some(0x10 | WS_EX_LAYERED));
    assert_eq!(apply_invisible(0x10 | WS_EX_LAYERED), None);
}
