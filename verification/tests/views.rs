use goxlr_volume_wheel::config::Config;
use goxlr_volume_wheel::draw::{DrawOp, Font, Layout, Rect};
use goxlr_volume_wheel::settings::{
    painted, region_at, wndproc, Action, Effect, HelpLang, Input, WindowState, WM_LBUTTONDOWN,
};
use goxlr_volume_wheel::hotkey::Modifiers;
use goxlr_volume_wheel::settings_view::{paint, paint_channel_row, RowState};
use goxlr_volume_wheel::visibility::ConfigEdit;
use goxlr_volume_wheel::widgets::{
    draw_eye, draw_hotkey_box, draw_language_tab, draw_pill_button, draw_star, draw_switch,
    draw_switch_row, Frame, ACCENT, ACCENT_HOVER, ACCENT_SOFT, BG, BORDER, CARD, CARD_ACTIVE,
    CARD_HOVER, DIVIDER, TEXT, TEXT_DIM, TEXT_FAINT,
};

fn rect(left: i32, top: i32, right: i32, bottom: i32) -> Rect {
    Rect { left, top, right, bottom }
}

const CLIENT: Rect = Rect { left: 0, top: 0, right: 460, bottom: 780 };

fn texts(ops: &[DrawOp]) -> Vec<&str> {
    let mut found = Vec::new();
    for op in ops {
        if let DrawOp::Text { text, .. } = op {
            found.push(text.as_str());
        }
    }
    found
}

fn text(content: &str, font: Font, color: u32, rect: Rect, layout: Layout) -> DrawOp {
    DrawOp::Text { text: content.to_string(), font, color, rect, layout }
}

#[test]
fn settings_view_has_its_regions() {
    let frame = paint(&WindowState::new(false, 4), &Config::default(), 4, CLIENT);
    assert_eq!(frame.regions.len(), 39);
    assert_eq!(frame.regions[0].rect, rect(412, 18, 438, 44));
    assert_eq!(frame.regions[0].action, Action::OpenHelp);
    assert_eq!(frame.regions[1].rect, rect(36, 52, 66, 82));
    assert_eq!(frame.regions[1].action, Action::SetFavorite(0));
    assert_eq!(frame.regions[2].rect, rect(394, 52, 424, 82));
    assert_eq!(frame.regions[2].action, Action::ToggleVisible(0));
    assert_eq!(frame.regions[3].rect, rect(72, 50, 388, 84));
    assert_eq!(frame.regions[3].action, Action::SetActive(0));
    assert_eq!(frame.regions[33].rect, rect(72, 430, 388, 464));
    assert_eq!(frame.regions[33].action, Action::SetActive(10));
    assert_eq!(frame.regions[34].rect, rect(22, 512, 438, 550));
    assert_eq!(frame.regions[34].action, Action::RecordHotkey);
    assert_eq!(frame.regions[35].rect, rect(22, 594, 438, 632));
    assert_eq!(frame.regions[35].action, Action::ToggleAutostart);
    assert_eq!(frame.regions[36].rect, rect(22, 652, 438, 690));
    assert_eq!(frame.regions[36].action, Action::ReinstallHook);
    assert_eq!(frame.regions[37].rect, rect(22, 698, 225, 736));
    assert_eq!(frame.regions[37].action, Action::OpenLogFolder);
    assert_eq!(frame.regions[38].rect, rect(235, 698, 438, 736));
    assert_eq!(frame.regions[38].action, Action::OpenConfigFolder);
}

#[test]
fn settings_view_says_what_it_offers() {
    let frame = paint(&WindowState::new(true, 4), &Config::default(), 4, CLIENT);
    assert_eq!(frame.ops[0], DrawOp::Fill { rect: CLIENT, color: BG });
    let said = texts(&frame.ops);
    assert_eq!(said[0], "CHANNELS");
    assert_eq!(said[1], "?");
    assert_eq!(&said[2..5], &["\u{E734}", "\u{E7B3}", "Mic"]);
    assert_eq!(&said[14..17], &["\u{E735}", "\u{E7B3}", "Game"]);
    assert_eq!(
        &said[35..],
        &[
            "CYCLE HOTKEY",
            "ctrl+shift+alt+v",
            "Cycles the active channel to the next visible one — applied instantly.",
            "Start with Windows",
            "Reinstall keyboard hook",
            "Open log folder",
            "Open config folder",
        ]
    );
    let dividers = frame
        .ops
        .iter()
        .filter(|op| matches!(op, DrawOp::Fill { color, .. } if *color == DIVIDER))
        .count();
    assert_eq!(dividers, 10);
    let active = frame
        .ops
        .iter()
        .filter(|op| matches!(op, DrawOp::Fill { color, .. } if *color == CARD_ACTIVE))
        .count();
    assert_eq!(active, 1);
}

#[test]
fn hotkey_box_invites_and_records() {
    let mut w = WindowState::new(false, 0);
    let mut c = Config::default();
    c.cycle_hotkey = None;
    let said_by = |w: &WindowState, c: &Config| -> Vec<String> {
        let frame = paint(w, c, 0, CLIENT);
        texts(&frame.ops)[36..38].iter().map(|s| s.to_string()).collect()
    };
    assert_eq!(said_by(&w, &c)[0], "Click to set a keyboard shortcut");
    c.cycle_hotkey = Some(String::new());
    assert_eq!(said_by(&w, &c)[0], "Click to set a keyboard shortcut");
    w.recording = true;
    assert_eq!(
        said_by(&w, &c),
        vec![
            "Press a combination… (Esc to cancel)",
            "Modifier + letter or F-key. Esc to cancel."
        ]
    );
}

#[test]
fn row_of_the_active_favorite() {
    let mut frame = Frame { ops: Vec::new(), regions: Vec::new() };
    let is = RowState { visible: true, favorite: true, active: true };
    paint_channel_row(&mut frame, None, rect(22, 200, 438, 238), 4, "Game", is);
    assert_eq!(
        frame.ops,
        vec![
            DrawOp::Fill { rect: rect(22, 200, 438, 238), color: CARD_ACTIVE },
            DrawOp::Fill { rect: rect(22, 206, 26, 232), color: ACCENT },
            text("\u{E735}", Font::Icon, ACCENT, rect(36, 204, 66, 234), Layout::Center),
            text("\u{E7B3}", Font::Icon, TEXT_DIM, rect(394, 204, 424, 234), Layout::Center),
            text("Game", Font::NameStrong, TEXT, rect(78, 200, 382, 238), Layout::Left),
        ]
    );
}

#[test]
fn row_of_a_hidden_channel_under_the_mouse() {
    let mut frame = Frame { ops: Vec::new(), regions: Vec::new() };
    let is = RowState { visible: false, favorite: false, active: false };
    paint_channel_row(&mut frame, Some(2), rect(22, 0, 438, 38), 1, "LineIn", is);
    assert_eq!(
        frame.ops,
        vec![
            text("\u{E734}", Font::Icon, TEXT_FAINT, rect(36, 4, 66, 34), Layout::Center),
            text("\u{ED1A}", Font::Icon, TEXT_FAINT, rect(394, 4, 424, 34), Layout::Center),
            text("LineIn", Font::Name, TEXT_DIM, rect(78, 0, 382, 38), Layout::Left),
        ]
    );
}

#[test]
fn star_and_eye_light_up_under_the_mouse() {
    let r = rect(0, 0, 30, 30);
    let mut ops = Vec::new();
    draw_star(&mut ops, r, false, true, true);
    draw_star(&mut ops, r, true, true, true);
    draw_eye(&mut ops, r, false, true);
    assert_eq!(
        ops,
        vec![
            DrawOp::Round { rect: r, fill: CARD_HOVER, border: BORDER, corner: 16 },
            text("\u{E734}", Font::Icon, TEXT, r, Layout::Center),
            text("\u{E735}", Font::Icon, ACCENT, r, Layout::Center),
            DrawOp::Round { rect: r, fill: CARD_HOVER, border: BORDER, corner: 16 },
            text("\u{ED1A}", Font::Icon, TEXT_DIM, r, Layout::Center),
        ]
    );
}

#[test]
fn boxes_and_buttons_have_their_colors() {
    let r = rect(0, 0, 100, 38);
    let mut ops = Vec::new();
    draw_hotkey_box(&mut ops, r, "Click here", false, true);
    draw_hotkey_box(&mut ops, r, "ctrl+k", true, false);
    draw_pill_button(&mut ops, r, "Back", false, true);
    draw_pill_button(&mut ops, r, "Open", true, false);
    draw_language_tab(&mut ops, r, "EN", true, true);
    draw_language_tab(&mut ops, r, "FR", false, false);
    let inner = rect(16, 0, 84, 38);
    assert_eq!(
        ops,
        vec![
            DrawOp::Round { rect: r, fill: CARD, border: ACCENT_SOFT, corner: 16 },
            text("Click here", Font::Body, TEXT_FAINT, inner, Layout::Left),
            DrawOp::Round { rect: r, fill: CARD_HOVER, border: ACCENT, corner: 16 },
            text("ctrl+k", Font::Body, ACCENT, inner, Layout::Left),
            DrawOp::Round { rect: r, fill: ACCENT_SOFT, border: ACCENT_SOFT, corner: 16 },
            text("Back", Font::Strong, TEXT, r, Layout::Center),
            DrawOp::Round { rect: r, fill: CARD_HOVER, border: ACCENT_SOFT, corner: 16 },
            text("Open", Font::Strong, TEXT, r, Layout::Center),
            DrawOp::Round { rect: r, fill: ACCENT_HOVER, border: ACCENT_HOVER, corner: 16 },
            text("EN", Font::Strong, TEXT, r, Layout::Center),
            DrawOp::Round { rect: r, fill: CARD, border: BORDER, corner: 16 },
            text("FR", Font::Strong, TEXT_DIM, r, Layout::Center),
        ]
    );
}

#[test]
fn switch_knob_stands_on_the_side_it_means() {
    let mut ops = Vec::new();
    draw_switch_row(&mut ops, rect(22, 594, 438, 632), "Start", true, false);
    draw_switch(&mut ops, rect(0, 0, 46, 24), false, true);
    assert_eq!(
        ops,
        vec![
            text("Start", Font::Body, TEXT, rect(26, 594, 380, 632), Layout::Left),
            DrawOp::Round { rect: rect(388, 601, 434, 625), fill: ACCENT, border: ACCENT, corner: 24 },
            DrawOp::Disc { rect: rect(413, 604, 431, 622), color: TEXT },
            DrawOp::Round {
                rect: rect(0, 0, 46, 24),
                fill: CARD_HOVER,
                border: CARD_HOVER,
                corner: 24,
            },
            DrawOp::Disc { rect: rect(3, 3, 21, 21), color: TEXT_DIM },
        ]
    );
}

#[test]
fn help_view_speaks_both_languages() {
    let mut w = WindowState::new(false, 0);
    w.show_help = true;
    let frame = paint(&w, &Config::default(), 0, CLIENT);
    let said = texts(&frame.ops);
    assert_eq!(said.len(), 20);
    assert_eq!(
        &said[..6],
        &[
            "Help",
            "EN",
            "FR",
            "Your volume keys, wired to a GoXLR fader.",
            "\u{E767}",
            "ACTIVE CHANNEL"
        ]
    );
    assert_eq!(said[19], "Back to settings");
    w.help_lang = HelpLang::Fr;
    let frame = paint(&w, &Config::default(), 0, CLIENT);
    let said = texts(&frame.ops);
    assert_eq!(said[0], "Aide");
    assert_eq!(said[8], "CHANNEL DE DÉMARRAGE");
    assert_eq!(said[17], "ICÔNE TRAY");
    assert_eq!(said[19], "Retour aux réglages");
}

#[test]
fn help_view_has_its_regions() {
    let mut w = WindowState::new(false, 0);
    w.show_help = true;
    let frame = paint(&w, &Config::default(), 0, CLIENT);
    assert_eq!(frame.regions.len(), 3);
    assert_eq!(frame.regions[0].rect, rect(348, 27, 390, 53));
    assert_eq!(frame.regions[0].action, Action::SetHelpLang(HelpLang::En));
    assert_eq!(frame.regions[1].rect, rect(396, 27, 438, 53));
    assert_eq!(frame.regions[1].action, Action::SetHelpLang(HelpLang::Fr));
    assert_eq!(frame.regions[2].rect, rect(22, 720, 438, 758));
    assert_eq!(frame.regions[2].action, Action::CloseHelp);
}

#[test]
fn help_cards_are_stacked() {
    let mut w = WindowState::new(false, 0);
    w.show_help = true;
    let frame = paint(&w, &Config::default(), 0, CLIENT);
    let mut cards = Vec::new();
    for op in &frame.ops {
        if let DrawOp::Round { rect, corner: 20, .. } = op {
            cards.push(*rect);
        }
    }
    assert_eq!(
        cards,
        vec![
            rect(22, 108, 438, 184),
            rect(22, 192, 438, 268),
            rect(22, 276, 438, 352),
            rect(22, 360, 438, 436),
            rect(22, 444, 438, 520),
        ]
    );
}

#[test]
fn no_point_lies_in_two_regions() {
    for show_help in [false, true] {
        let mut w = WindowState::new(false, 0);
        w.show_help = show_help;
        let regions = paint(&w, &Config::default(), 0, CLIENT).regions;
        for x in (0..460).step_by(3) {
            for y in (0..780).step_by(3) {
                let hits = regions
                    .iter()
                    .filter(|r| {
                        r.rect.left <= x && x < r.rect.right && r.rect.top <= y && y < r.rect.bottom
                    })
                    .count();
                assert!(hits <= 1);
                assert_eq!(region_at(&regions, x, y).is_some(), hits == 1);
            }
        }
    }
}

#[test]
fn rows_act_on_their_channel() {
    let config = Config::default();
    for i in 0..11usize {
        let y = 48 + 38 * i as isize + 19;
        for (x, expected) in [
            (50isize, Effect::Edit(ConfigEdit::Favorite(i))),
            (400, Effect::Edit(ConfigEdit::ToggleVisible(i))),
            (200, Effect::StoreActive(i)),
        ] {
            let mut w = WindowState::new(false, 0);
            let frame = paint(&w, &config, 0, CLIENT);
            painted(&mut w, frame.regions);
            let input = Input {
                msg: WM_LBUTTONDOWN,
                w_param: 0,
                l_param: (y << 16) | x,
                keys: Modifiers { ctrl: false, shift: false, alt: false, win: false },
                active: 0,
            };
            assert_eq!(wndproc(&mut w, input).effects, vec![expected, Effect::Repaint]);
        }
    }
}
