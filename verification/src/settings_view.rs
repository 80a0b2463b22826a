//! The settings view: what it shows and where it can be clicked.

use crate::config::{
    channel_count, channel_name, channels, is_visible, Config, ConfigView,
};
use crate::draw::{
    divide, emit, emit_text, fill_round, fits, label, quotient, rect, round, within, DrawOp,
    Font, Layout, OpView, Rect,
};
use crate::help_view::{help_fits, help_regions, paint_help, with_help};
use crate::settings::{acted, clicked, lemma_hit_is, message_point, Action, HitRegion, WindowState};
use crate::text::same;
use crate::widgets::{
    draw_eye, draw_header, draw_help_button, draw_hint, draw_hotkey_box, draw_pill_button, draw_star,
    draw_switch_row, eye_ops, header_op, help_button_ops, hint_op, hotkey_box_ops, hovers,
    is_hovered, op_if, pill_ops, star_ops, switch_row_ops, Frame, FrameView, ACCENT, BG, CARD,
    CARD_ACTIVE, CARD_RADIUS, DIVIDER, HEADER_H, HELP_BTN, ICON_BTN, PADDING, ROW_H, SECTION_GAP,
    TEXT, TEXT_DIM, TEXT_FAINT,
};
use vstd::prelude::*;

verus! {

/// Height of a box or button.
pub const BOX_H: i32 = 38;

// ---------------------------------------------------------------- a channel's row

/// The star of a row.
pub open spec fn star_rect(row: Rect) -> Rect {
    rect(row.left + 14, row.top + 4, row.left + 14 + ICON_BTN, row.top + 4 + ICON_BTN)
}

/// The eye of a row.
pub open spec fn eye_rect(row: Rect) -> Rect {
    rect(row.right - 14 - ICON_BTN, row.top + 4, row.right - 14, row.top + 4 + ICON_BTN)
}

/// The part of a row that can be clicked as the channel's name.
pub open spec fn name_rect(row: Rect) -> Rect {
    rect(row.left + 50, row.top + 2, row.right - 50, row.bottom - 2)
}

/// What a row shows of its channel.
#[derive(Clone, Copy, Debug, PartialEq, Eq, Structural)]
pub struct RowState {
    pub visible: bool,
    /// Whether it is the startup channel.
    pub favorite: bool,
    /// Whether the volume wheel controls it now.
    pub active: bool,
}

/// The surface of the row that is active.
pub open spec fn active_ops(row: Rect) -> Seq<OpView> {
    seq![
        OpView::Fill { rect: row, color: CARD_ACTIVE },
        OpView::Fill {
            rect: rect(row.left as int, row.top + 6, row.left + 4, row.bottom - 6),
            color: ACCENT,
        },
    ]
}

/// The channel's name: strong and bright where it is active, dim where it is visible, faint where
/// it is hidden.
pub open spec fn name_op(row: Rect, name: Seq<char>, is: RowState, hovered: bool) -> OpView {
    let color = if is.active {
        TEXT
    } else if is.visible {
        if hovered {
            TEXT
        } else {
            TEXT_DIM
        }
    } else if hovered {
        TEXT_DIM
    } else {
        TEXT_FAINT
    };
    let font = if is.active {
        Font::NameStrong
    } else {
        Font::Name
    };
    label(
        name,
        font,
        color,
        rect(row.left + 56, row.top as int, row.right - 56, row.bottom as int),
        Layout::Left,
    )
}

/// What a row shows; its first region has the number `n`.
pub open spec fn row_ops(
    row: Rect,
    name: Seq<char>,
    is: RowState,
    hovered: Option<usize>,
    n: int,
) -> Seq<OpView> {
    (if is.active {
        active_ops(row)
    } else {
        Seq::empty()
    }) + star_ops(star_rect(row), is.favorite, is.visible, hovers(hovered, n)) + eye_ops(
        eye_rect(row),
        is.visible,
        hovers(hovered, n + 1),
    ) + seq![name_op(row, name, is, hovers(hovered, n + 2))]
}

/// Where a row can be clicked.
pub open spec fn row_regions(row: Rect, index: int) -> Seq<HitRegion> {
    seq![
        HitRegion { rect: star_rect(row), action: Action::SetFavorite(index as usize) },
        HitRegion { rect: eye_rect(row), action: Action::ToggleVisible(index as usize) },
        HitRegion { rect: name_rect(row), action: Action::SetActive(index as usize) },
    ]
}

/// Paints the row of a channel. Heavy visual treatment is reserved for the active channel — the
/// one the wheel is moving right now. The favourite gets just the filled star marker. They can
/// coincide; when they do, both are applied.
pub fn paint_channel_row(
    frame: &mut Frame,
    hovered: Option<usize>,
    row: Rect,
    index: usize,
    name: &str,
    is: RowState,
)
    requires
        fits(row.left + 56),
        fits(row.right - 56),
        fits(row.top + 4 + ICON_BTN),
        fits(row.bottom - 2),
        is.active ==> fits(row.bottom - 6),
    ensures
        final(frame)@ == old(frame)@.plus(
            row_ops(row, name@, is, hovered, old(frame)@.regions.len() as int),
            row_regions(row, index as int),
        ),
{
    if is.active {
        emit(&mut frame.ops, DrawOp::Fill { rect: row, color: CARD_ACTIVE });
        let stripe = Rect {
            left: row.left,
            top: row.top + 6,
            right: row.left + 4,
            bottom: row.bottom - 6,
        };
        emit(&mut frame.ops, DrawOp::Fill { rect: stripe, color: ACCENT });
    }
    let top: i32 = row.top + (ROW_H - ICON_BTN) / 2;
    let star = Rect {
        left: row.left + 14,
        top,
        right: row.left + 14 + ICON_BTN,
        bottom: top + ICON_BTN,
    };
    let star_hovered = is_hovered(hovered, frame.regions.len());
    draw_star(&mut frame.ops, star, is.favorite, is.visible, star_hovered);
    frame.regions.push(HitRegion { rect: star, action: Action::SetFavorite(index) });

    let eye_left: i32 = row.right - ICON_BTN - 14;
    let eye = Rect { left: eye_left, top, right: eye_left + ICON_BTN, bottom: top + ICON_BTN };
    let eye_hovered = is_hovered(hovered, frame.regions.len());
    draw_eye(&mut frame.ops, eye, is.visible, eye_hovered);
    frame.regions.push(HitRegion { rect: eye, action: Action::ToggleVisible(index) });

    let name_hit = Rect {
        left: star.right + 6,
        top: row.top + 2,
        right: eye.left - 6,
        bottom: row.bottom - 2,
    };
    let name_hovered = is_hovered(hovered, frame.regions.len());
    let (color, font): (u32, Font) = if is.active {
        (TEXT, Font::NameStrong)
    } else if is.visible {
        (
            if name_hovered {
                TEXT
            } else {
                TEXT_DIM
            },
            Font::Name,
        )
    } else {
        (
            if name_hovered {
                TEXT_DIM
            } else {
                TEXT_FAINT
            },
            Font::Name,
        )
    };
    let name_place = Rect {
        left: star.right + 12,
        top: row.top,
        right: eye.left - 12,
        bottom: row.bottom,
    };
    emit_text(&mut frame.ops, name, font, color, name_place, Layout::Left);
    frame.regions.push(HitRegion { rect: name_hit, action: Action::SetActive(index) });
    proof {
        let n = old(frame)@.regions.len() as int;
        assert(frame@.ops =~= old(frame)@.ops + row_ops(row, name@, is, hovered, n));
        assert(frame@.regions =~= old(frame)@.regions + row_regions(row, index as int));
    }
}

// ---------------------------------------------------------------- channels

/// Where the rows begin in a section that begins at `y`.
pub open spec fn rows_top(y: int) -> int {
    y + HEADER_H + 10
}

/// The row of channel `i`.
pub open spec fn row_rect(client: Rect, top: int, i: int) -> Rect {
    rect(PADDING as int, top + ROW_H * i, client.right - PADDING, top + ROW_H * i + ROW_H)
}

/// What the row of channel `i` shows of it.
pub open spec fn row_state(config: ConfigView, active: int, i: int) -> RowState {
    RowState {
        visible: config.visible.contains(channels()[i]),
        favorite: channels()[i] == config.default_channel,
        active: i == active,
    }
}

/// The line below a row.
pub open spec fn divider_op(row: Rect) -> OpView {
    OpView::Fill {
        rect: rect(row.left + 14, row.bottom - 1, row.right - 14, row.bottom as int),
        color: DIVIDER,
    }
}

/// What the first `count` rows show; their first region has the number `n`.
pub open spec fn rows_ops(
    config: ConfigView,
    active: int,
    client: Rect,
    top: int,
    hovered: Option<usize>,
    n: int,
    count: nat,
) -> Seq<OpView>
    decreases count,
{
    if count == 0 {
        Seq::empty()
    } else {
        let i = count - 1;
        let row = row_rect(client, top, i);
        rows_ops(config, active, client, top, hovered, n, i as nat) + row_ops(
            row,
            channels()[i],
            row_state(config, active, i),
            hovered,
            n + 3 * i,
        ) + op_if(count < channel_count(), divider_op(row))
    }
}

/// Where the first `count` rows can be clicked.
pub open spec fn rows_regions(client: Rect, top: int, count: nat) -> Seq<HitRegion> {
    Seq::new(3 * count, |k: int| row_regions(row_rect(client, top, k / 3), k / 3)[k % 3])
}

/// The button that opens the help.
pub open spec fn help_rect(client: Rect, y: int) -> Rect {
    rect(
        client.right - PADDING - HELP_BTN,
        y - 4,
        client.right - PADDING,
        y - 4 + HELP_BTN,
    )
}

/// The section of the channels, added to what is there.
pub open spec fn with_channels(
    f: FrameView,
    hovered: Option<usize>,
    client: Rect,
    y: int,
    config: ConfigView,
    active: int,
) -> FrameView {
    let n = f.regions.len() as int;
    let top = rows_top(y);
    f.plus(
        seq![header_op("CHANNELS"@, PADDING as int, y)] + help_button_ops(
            help_rect(client, y),
            hovers(hovered, n),
        ) + seq![
            round(
                rect(
                    PADDING as int,
                    top,
                    client.right - PADDING,
                    top + ROW_H * channel_count(),
                ),
                CARD,
                CARD,
                CARD_RADIUS as int,
            ),
        ] + rows_ops(config, active, client, top, hovered, n + 1, channel_count()),
        seq![
            HitRegion { rect: help_rect(client, y), action: Action::OpenHelp },
        ] + rows_regions(client, top, channel_count()),
    )
}

/// How far down the section of the channels reaches.
pub open spec fn channels_end(y: int) -> int {
    rows_top(y) + ROW_H * channel_count()
}

/// Paints the section of the channels and says where it ends.
pub fn paint_channels_section(
    frame: &mut Frame,
    hovered: Option<usize>,
    client: Rect,
    y: i32,
    config: &Config,
    active: usize,
) -> (end: i32)
    requires
        fits(client.right - PADDING - 56),
        fits(y - 4),
        fits(channels_end(y as int)),
    ensures
        final(frame)@ == with_channels(
            old(frame)@,
            hovered,
            client,
            y as int,
            config@,
            active as int,
        ),
        end == channels_end(y as int),
{
    let ghost f = frame@;
    let ghost n = f.regions.len() as int;
    draw_header(&mut frame.ops, "CHANNELS", PADDING, y);
    let help = Rect {
        left: client.right - PADDING - HELP_BTN,
        top: y - 4,
        right: client.right - PADDING,
        bottom: y - 4 + HELP_BTN,
    };
    let help_hovered = is_hovered(hovered, frame.regions.len());
    draw_help_button(&mut frame.ops, help, help_hovered);
    frame.regions.push(HitRegion { rect: help, action: Action::OpenHelp });

    let top: i32 = y + HEADER_H + 10;
    let panel = Rect {
        left: PADDING,
        top,
        right: client.right - PADDING,
        bottom: top + ROW_H * 11,
    };
    fill_round(&mut frame.ops, panel, CARD, CARD, CARD_RADIUS);

    let ghost base = frame@;
    for i in 0..11usize
        invariant
            fits(client.right - PADDING - 56),
            top == rows_top(y as int),
            fits(channels_end(y as int)),
            fits(y - 4),
            base.regions.len() == n + 1,
            frame@ == base.plus(
                rows_ops(
                    config@,
                    active as int,
                    client,
                    top as int,
                    hovered,
                    n + 1,
                    i as nat,
                ),
                rows_regions(client, top as int, i as nat),
            ),
    {
        let ghost before = frame@;
        let row_top: i32 = top + ROW_H * (i as i32);
        let row = Rect {
            left: PADDING,
            top: row_top,
            right: client.right - PADDING,
            bottom: row_top + ROW_H,
        };
        let channel = channel_name(i);
        let is = RowState {
            visible: is_visible(&config.visible_channels, channel),
            favorite: same(channel, config.default_channel.as_str()),
            active: i == active,
        };
        assert(row == row_rect(client, top as int, i as int));
        assert(is == row_state(config@, active as int, i as int));
        paint_channel_row(frame, hovered, row, i, channel, is);
        if i + 1 < 11 {
            let divider = Rect {
                left: row.left + 14,
                top: row.bottom - 1,
                right: row.right - 14,
                bottom: row.bottom,
            };
            emit(&mut frame.ops, DrawOp::Fill { rect: divider, color: DIVIDER });
        }
        proof {
            let r = rows_regions(client, top as int, i as nat);
            assert(before.regions.len() == n + 1 + 3 * i);
            assert(frame@.ops =~= base.ops + rows_ops(
                config@,
                active as int,
                client,
                top as int,
                hovered,
                n + 1,
                (i + 1) as nat,
            ));
            assert(r + row_regions(row, i as int) =~= rows_regions(
                client,
                top as int,
                (i + 1) as nat,
            ));
            assert(frame@.regions =~= base.regions + rows_regions(
                client,
                top as int,
                (i + 1) as nat,
            ));
        }
    }
    assert(frame@ =~= with_channels(f, hovered, client, y as int, config@, active as int));
    top + ROW_H * 11
}

// ---------------------------------------------------------------- hotkey

/// The box of the cycle hotkey in a section that begins at `y`.
pub open spec fn hotkey_rect(client: Rect, y: int) -> Rect {
    let top = y + SECTION_GAP + HEADER_H + 10;
    rect(PADDING as int, top, client.right - PADDING, top + BOX_H)
}

/// What the box says.
pub open spec fn hotkey_text(hotkey: Seq<char>, recording: bool) -> Seq<char> {
    if recording {
        "Press a combination… (Esc to cancel)"@
    } else if hotkey.len() == 0 {
        "Click to set a keyboard shortcut"@
    } else {
        hotkey
    }
}

/// What the line below the box says.
pub open spec fn hotkey_hint(recording: bool) -> Seq<char> {
    if recording {
        "Modifier + letter or F-key. Esc to cancel."@
    } else {
        "Cycles the active channel to the next visible one — applied instantly."@
    }
}

/// The section of the cycle hotkey, added to what is there.
pub open spec fn with_hotkey(
    f: FrameView,
    hovered: Option<usize>,
    client: Rect,
    y: int,
    hotkey: Seq<char>,
    recording: bool,
) -> FrameView {
    let n = f.regions.len() as int;
    let place = hotkey_rect(client, y);
    f.plus(
        seq![header_op("CYCLE HOTKEY"@, PADDING as int, y + SECTION_GAP)] + hotkey_box_ops(
            place,
            hotkey_text(hotkey, recording),
            recording,
            hovers(hovered, n),
        ) + seq![hint_op(hotkey_hint(recording), PADDING as int, place.bottom + 8)],
        seq![HitRegion { rect: place, action: Action::RecordHotkey }],
    )
}

/// How far down the section of the cycle hotkey reaches.
pub open spec fn hotkey_end(y: int) -> int {
    y + SECTION_GAP + HEADER_H + 10 + BOX_H + 8 + 18
}

/// Paints the section of the cycle hotkey and says where it ends.
pub fn paint_hotkey_section(
    frame: &mut Frame,
    hovered: Option<usize>,
    client: Rect,
    y: i32,
    hotkey: &str,
    recording: bool,
) -> (end: i32)
    requires
        fits(client.right - PADDING - 16),
        fits(hotkey_end(y as int)),
    ensures
        final(frame)@ == with_hotkey(old(frame)@, hovered, client, y as int, hotkey@, recording),
        end == hotkey_end(y as int),
{
    let ghost f = frame@;
    let top: i32 = y + SECTION_GAP;
    draw_header(&mut frame.ops, "CYCLE HOTKEY", PADDING, top);
    let top: i32 = top + HEADER_H + 10;
    let place = Rect {
        left: PADDING,
        top,
        right: client.right - PADDING,
        bottom: top + BOX_H,
    };
    let display: &str = if recording {
        "Press a combination… (Esc to cancel)"
    } else if hotkey.is_empty() {
        "Click to set a keyboard shortcut"
    } else {
        hotkey
    };
    let box_hovered = is_hovered(hovered, frame.regions.len());
    draw_hotkey_box(&mut frame.ops, place, display, recording, box_hovered);
    frame.regions.push(HitRegion { rect: place, action: Action::RecordHotkey });
    let top: i32 = top + BOX_H + 8;
    let hint: &str = if recording {
        "Modifier + letter or F-key. Esc to cancel."
    } else {
        "Cycles the active channel to the next visible one — applied instantly."
    };
    draw_hint(&mut frame.ops, hint, PADDING, top);
    assert(frame@ =~= with_hotkey(f, hovered, client, y as int, hotkey@, recording));
    top + 18
}

// ---------------------------------------------------------------- autostart

/// The row of the autostart switch in a section that begins at `y`.
pub open spec fn autostart_rect(client: Rect, y: int) -> Rect {
    let top = y + SECTION_GAP - 2;
    rect(PADDING as int, top, client.right - PADDING, top + BOX_H)
}

/// The autostart switch, added to what is there.
pub open spec fn with_autostart(
    f: FrameView,
    hovered: Option<usize>,
    client: Rect,
    y: int,
    autostart: bool,
) -> FrameView {
    let n = f.regions.len() as int;
    let place = autostart_rect(client, y);
    f.plus(
        switch_row_ops(place, "Start with Windows"@, autostart, hovers(hovered, n)),
        seq![HitRegion { rect: place, action: Action::ToggleAutostart }],
    )
}

/// How far down the section of the autostart switch reaches.
pub open spec fn autostart_end(y: int) -> int {
    y + SECTION_GAP - 2 + BOX_H
}

/// Paints the autostart switch and says where its section ends.
pub fn paint_autostart_section(
    frame: &mut Frame,
    hovered: Option<usize>,
    client: Rect,
    y: i32,
    autostart: bool,
) -> (end: i32)
    requires
        fits(client.right - PADDING - 58),
        fits(y + SECTION_GAP),
        fits(autostart_end(y as int)),
    ensures
        final(frame)@ == with_autostart(old(frame)@, hovered, client, y as int, autostart),
        end == autostart_end(y as int),
{
    let ghost f = frame@;
    let top: i32 = y + SECTION_GAP - 2;
    let place = Rect {
        left: PADDING,
        top,
        right: client.right - PADDING,
        bottom: top + BOX_H,
    };
    let row_hovered = is_hovered(hovered, frame.regions.len());
    draw_switch_row(&mut frame.ops, place, "Start with Windows", autostart, row_hovered);
    frame.regions.push(HitRegion { rect: place, action: Action::ToggleAutostart });
    assert(frame@ =~= with_autostart(f, hovered, client, y as int, autostart));
    top + BOX_H
}

// ---------------------------------------------------------------- buttons

/// Width of the two buttons that stand side by side.
pub open spec fn half_width(client: Rect) -> int {
    quotient(client.right - PADDING * 2 - 10, 2)
}

/// The button that reinstalls the hook in a section that begins at `y`.
pub open spec fn reinstall_rect(client: Rect, y: int) -> Rect {
    let top = y + SECTION_GAP;
    rect(PADDING as int, top, client.right - PADDING, top + BOX_H)
}

/// The button that opens the folder of the log.
pub open spec fn logs_rect(client: Rect, y: int) -> Rect {
    let top = y + SECTION_GAP + BOX_H + 8;
    rect(PADDING as int, top, PADDING + half_width(client), top + BOX_H)
}

/// The button that opens the folder of the configuration.
pub open spec fn config_rect(client: Rect, y: int) -> Rect {
    let top = y + SECTION_GAP + BOX_H + 8;
    let left = PADDING + half_width(client) + 10;
    rect(left, top, left + half_width(client), top + BOX_H)
}

/// The buttons, added to what is there.
pub open spec fn with_buttons(
    f: FrameView,
    hovered: Option<usize>,
    client: Rect,
    y: int,
) -> FrameView {
    let n = f.regions.len() as int;
    f.plus(
        pill_ops(
            reinstall_rect(client, y),
            "Reinstall keyboard hook"@,
            hovers(hovered, n),
            false,
        ) + pill_ops(logs_rect(client, y), "Open log folder"@, hovers(hovered, n + 1), false)
            + pill_ops(
            config_rect(client, y),
            "Open config folder"@,
            hovers(hovered, n + 2),
            false,
        ),
        seq![
            HitRegion { rect: reinstall_rect(client, y), action: Action::ReinstallHook },
            HitRegion { rect: logs_rect(client, y), action: Action::OpenLogFolder },
            HitRegion { rect: config_rect(client, y), action: Action::OpenConfigFolder },
        ],
    )
}

/// How far down the buttons reach.
pub open spec fn buttons_end(y: int) -> int {
    y + SECTION_GAP + BOX_H + 8 + BOX_H
}

/// Paints the buttons.
pub fn paint_action_buttons(frame: &mut Frame, hovered: Option<usize>, client: Rect, y: i32)
    requires
        fits(client.right - PADDING * 2 - 10),
        fits(buttons_end(y as int)),
    ensures
        final(frame)@ == with_buttons(old(frame)@, hovered, client, y as int),
{
    let ghost f = frame@;
    let top: i32 = y + SECTION_GAP;
    let reinstall = Rect {
        left: PADDING,
        top,
        right: client.right - PADDING,
        bottom: top + BOX_H,
    };
    let on = is_hovered(hovered, frame.regions.len());
    draw_pill_button(&mut frame.ops, reinstall, "Reinstall keyboard hook", on, false);
    frame.regions.push(HitRegion { rect: reinstall, action: Action::ReinstallHook });

    let top: i32 = top + BOX_H + 8;
    let width: i32 = divide(client.right - PADDING * 2 - 10, 2);
    let logs = Rect { left: PADDING, top, right: PADDING + width, bottom: top + BOX_H };
    let on = is_hovered(hovered, frame.regions.len());
    draw_pill_button(&mut frame.ops, logs, "Open log folder", on, false);
    frame.regions.push(HitRegion { rect: logs, action: Action::OpenLogFolder });

    let folder = Rect {
        left: logs.right + 10,
        top,
        right: logs.right + 10 + width,
        bottom: top + BOX_H,
    };
    let on = is_hovered(hovered, frame.regions.len());
    draw_pill_button(&mut frame.ops, folder, "Open config folder", on, false);
    frame.regions.push(HitRegion { rect: folder, action: Action::OpenConfigFolder });
    assert(frame@ =~= with_buttons(f, hovered, client, y as int));
}

// ---------------------------------------------------------------- the view

/// Whether the view can be painted: no number on the way is too large.
pub open spec fn settings_fit(client: Rect) -> bool {
    fits(client.right - PADDING - 58)
}

/// The settings view, added to what is there.
pub open spec fn with_settings(
    f: FrameView,
    s: WindowState,
    config: ConfigView,
    active: int,
    client: Rect,
) -> FrameView {
    let y1 = PADDING as int;
    let y2 = channels_end(y1);
    let y3 = hotkey_end(y2);
    let y4 = autostart_end(y3);
    let hotkey = match config.cycle_hotkey {
        Some(text) => text,
        None => Seq::empty(),
    };
    with_buttons(
        with_autostart(
            with_hotkey(
                with_channels(f, s.hovered, client, y1, config, active),
                s.hovered,
                client,
                y2,
                hotkey,
                s.recording,
            ),
            s.hovered,
            client,
            y3,
            s.autostart,
        ),
        s.hovered,
        client,
        y4,
    )
}

/// Paints the settings view.
pub fn paint_settings(
    frame: &mut Frame,
    state: &WindowState,
    config: &Config,
    active: usize,
    client: Rect,
)
    requires
        settings_fit(client),
    ensures
        final(frame)@ == with_settings(old(frame)@, *state, config@, active as int, client),
{
    let y = paint_channels_section(frame, state.hovered, client, PADDING, config, active);
    let hotkey: &str = match &config.cycle_hotkey {
        Some(text) => text.as_str(),
        None => "",
    };
    proof {
        reveal_strlit("");
        assert(""@ =~= Seq::empty());
    }
    let y = paint_hotkey_section(frame, state.hovered, client, y, hotkey, state.recording);
    let y = paint_autostart_section(frame, state.hovered, client, y, state.autostart);
    paint_action_buttons(frame, state.hovered, client, y);
}

// ---------------------------------------------------------------- the window

/// What the window shows.
pub open spec fn shown(s: WindowState, config: ConfigView, active: int, client: Rect) -> FrameView {
    let f = FrameView {
        ops: seq![OpView::Fill { rect: client, color: BG }],
        regions: Seq::empty(),
    };
    if s.show_help {
        with_help(f, s.help_lang, s.hovered, client)
    } else {
        with_settings(f, s, config, active, client)
    }
}

/// Where the settings view can be clicked.
pub open spec fn settings_regions(client: Rect) -> Seq<HitRegion> {
    let y1 = PADDING as int;
    let y2 = channels_end(y1);
    let y3 = hotkey_end(y2);
    let y4 = autostart_end(y3);
    seq![HitRegion { rect: help_rect(client, y1), action: Action::OpenHelp }] + rows_regions(
        client,
        rows_top(y1),
        channel_count(),
    ) + seq![
        HitRegion { rect: hotkey_rect(client, y2), action: Action::RecordHotkey },
        HitRegion { rect: autostart_rect(client, y3), action: Action::ToggleAutostart },
        HitRegion { rect: reinstall_rect(client, y4), action: Action::ReinstallHook },
        HitRegion { rect: logs_rect(client, y4), action: Action::OpenLogFolder },
        HitRegion { rect: config_rect(client, y4), action: Action::OpenConfigFolder },
    ]
}

/// Where the window can be clicked rests on the view and the window's size alone.
pub proof fn regions_of_view(s: WindowState, config: ConfigView, active: int, client: Rect)
    ensures
        shown(s, config, active, client).regions == (if s.show_help {
            help_regions(client)
        } else {
            settings_regions(client)
        }),
{
    if s.show_help {
        assert(shown(s, config, active, client).regions =~= help_regions(client));
    } else {
        assert(shown(s, config, active, client).regions =~= settings_regions(client));
    }
}

/// Every region of the window leads to a valid action.
pub proof fn regions_are_valid(
    s: WindowState,
    config: ConfigView,
    active: int,
    client: Rect,
    i: int,
)
    requires
        0 <= i < shown(s, config, active, client).regions.len(),
    ensures
        shown(s, config, active, client).regions[i].action.valid(),
{
    regions_of_view(s, config, active, client);
}

/// Paints the window: the help view where it is open, the settings otherwise.
pub fn paint(state: &WindowState, config: &Config, active: usize, client: Rect) -> (r: Frame)
    requires
        if state.show_help {
            help_fits(client)
        } else {
            settings_fit(client)
        },
    ensures
        r@ == shown(*state, config@, active as int, client),
        forall|i: int| 0 <= i < r.regions@.len() ==> (#[trigger] r.regions@[i]).action.valid(),
{
    let mut frame = Frame { ops: Vec::new(), regions: Vec::new() };
    emit(&mut frame.ops, DrawOp::Fill { rect: client, color: BG });
    assert(frame@.ops =~= seq![OpView::Fill { rect: client, color: BG }]);
    assert(frame@.regions =~= Seq::empty());
    if state.show_help {
        paint_help(&mut frame, state.help_lang, state.hovered, client);
    } else {
        paint_settings(&mut frame, state, config, active, client);
    }
    proof {
        assert forall|i: int| 0 <= i < frame.regions@.len() implies (
        #[trigger] frame.regions@[i]).action.valid() by {
            regions_are_valid(*state, config@, active as int, client, i);
        }
    }
    frame
}

// ---------------------------------------------------------------- laws

/// Whether the window is wide enough for the star and the eye of a row to stand side by side, or
/// too narrow for them to meet.
pub open spec fn rows_have_room(client: Rect) -> bool {
    client.right >= 132 || client.right <= 72
}

/// The regions of channel `i`.
pub proof fn lemma_row_regions(client: Rect, i: int)
    requires
        0 <= i < channel_count(),
    ensures
        settings_regions(client).len() == 3 * channel_count() + 6,
        forall|k: int|
            0 <= k < 3 ==> #[trigger] settings_regions(client)[1 + 3 * i + k] == row_regions(
                row_rect(client, rows_top(PADDING as int), i),
                i,
            )[k],
{
}

/// No point of the settings view lies in two regions, so what is clicked never depends on the
/// order in which the regions were painted.
pub proof fn settings_regions_disjoint(client: Rect, i: int, j: int, x: int, y: int)
    requires
        settings_fit(client),
        rows_have_room(client),
        0 <= i < settings_regions(client).len(),
        0 <= j < settings_regions(client).len(),
        i != j,
    ensures
        !(within(settings_regions(client)[i].rect, x, y) && within(
            settings_regions(client)[j].rect,
            x,
            y,
        )),
{
    let r = settings_regions(client);
    let top = rows_top(PADDING as int);
    let count = 3 * channel_count();
    if 1 <= i <= count {
        lemma_row_regions(client, (i - 1) / 3);
        assert(r[i] == row_regions(row_rect(client, top, (i - 1) / 3), (i - 1) / 3)[(i - 1) % 3]);
    }
    if 1 <= j <= count {
        lemma_row_regions(client, (j - 1) / 3);
        assert(r[j] == row_regions(row_rect(client, top, (j - 1) / 3), (j - 1) / 3)[(j - 1) % 3]);
    }
}

/// A click into a region of the settings view does what that region is for.
pub proof fn click_does_what_is_shown(s: WindowState, client: Rect, l_param: isize, i: int)
    requires
        settings_fit(client),
        rows_have_room(client),
        s.regions@ == settings_regions(client),
        0 <= i < settings_regions(client).len(),
        within(
            settings_regions(client)[i].rect,
            message_point(l_param).0,
            message_point(l_param).1,
        ),
    ensures
        clicked(s, l_param) == acted(s, settings_regions(client)[i].action),
{
    let (x, y) = message_point(l_param);
    assert forall|j: int| 0 <= j < i implies !within((#[trigger] s.regions@[j]).rect, x, y) by {
        settings_regions_disjoint(client, i, j, x, y);
    }
    lemma_hit_is(s.regions@, x, y, i);
}

/// In the row of a channel a click on the star makes it the favourite, one on the eye shows or
/// hides it, and one on the name makes it active.
pub proof fn row_acts_on_its_channel(s: WindowState, client: Rect, l_param: isize, i: usize)
    requires
        settings_fit(client),
        rows_have_room(client),
        s.regions@ == settings_regions(client),
        i < channel_count(),
    ensures
        ({
            let row = row_rect(client, rows_top(PADDING as int), i as int);
            let (x, y) = message_point(l_param);
            &&& within(star_rect(row), x, y) ==> clicked(s, l_param) == acted(
                s,
                Action::SetFavorite(i),
            )
            &&& within(eye_rect(row), x, y) ==> clicked(s, l_param) == acted(
                s,
                Action::ToggleVisible(i),
            )
            &&& within(name_rect(row), x, y) ==> clicked(s, l_param) == acted(
                s,
                Action::SetActive(i),
            )
        }),
{
    let row = row_rect(client, rows_top(PADDING as int), i as int);
    let (x, y) = message_point(l_param);
    let r = settings_regions(client);
    lemma_row_regions(client, i as int);
    assert(r[1 + 3 * i + 0] == row_regions(row, i as int)[0]);
    assert(r[1 + 3 * i + 1] == row_regions(row, i as int)[1]);
    assert(r[1 + 3 * i + 2] == row_regions(row, i as int)[2]);
    if within(star_rect(row), x, y) {
        click_does_what_is_shown(s, client, l_param, 1 + 3 * i + 0);
    }
    if within(eye_rect(row), x, y) {
        click_does_what_is_shown(s, client, l_param, 1 + 3 * i + 1);
    }
    if within(name_rect(row), x, y) {
        click_does_what_is_shown(s, client, l_param, 1 + 3 * i + 2);
    }
}

// ---------------------------------------------------------------- what is shown where

/// The row of a channel: where it is active its surface and an orange stripe at the left, then the
/// star, the eye, and the name between them; what is hovered goes by the numbers of the row's three
/// regions.
pub proof fn row_is_star_eye_and_name(
    row: Rect,
    name: Seq<char>,
    is: RowState,
    hovered: Option<usize>,
    n: int,
)
    ensures
        ({
            let surface = seq![
                OpView::Fill { rect: row, color: 0x2A3245 },
                OpView::Fill {
                    rect: rect(row.left as int, row.top + 6, row.left + 4, row.bottom - 6),
                    color: 0x339CFB,
                },
            ];
            let star = rect(row.left + 14, row.top + 4, row.left + 44, row.top + 34);
            let eye = rect(row.right - 44, row.top + 4, row.right - 14, row.top + 34);
            let over_name = hovers(hovered, n + 2);
            row_ops(row, name, is, hovered, n) == (if is.active {
                surface
            } else {
                Seq::<OpView>::empty()
            }) + star_ops(star, is.favorite, is.visible, hovers(hovered, n)) + eye_ops(
                eye,
                is.visible,
                hovers(hovered, n + 1),
            ) + seq![
                OpView::Text {
                    text: name,
                    font: if is.active {
                        Font::NameStrong
                    } else {
                        Font::Name
                    },
                    color: if is.active || (is.visible && over_name) {
                        0xF5F5F5
                    } else if is.visible || over_name {
                        0xB0B0B0
                    } else {
                        0x707070
                    },
                    rect: rect(row.left + 56, row.top as int, row.right - 56, row.bottom as int),
                    layout: Layout::Left,
                },
            ]
        }),
{
}

/// What a row tells of its channel: whether the configuration lists it as visible, whether it is
/// the startup channel, and whether it is the active one.
pub proof fn row_tells_of_its_channel(config: ConfigView, active: int, i: int)
    ensures
        row_state(config, active, i).visible <==> exists|k: int|
            0 <= k < config.visible.len() && #[trigger] config.visible[k] == channels()[i],
        row_state(config, active, i).favorite <==> config.default_channel == channels()[i],
        row_state(config, active, i).active <==> active == i,
{
}

/// Row by row: each shows the channel with its number, 38 pixels below the one before, with a line
/// under every row but the last; its regions follow those of the row before.
pub proof fn rows_show_the_channels_in_order(
    config: ConfigView,
    active: int,
    client: Rect,
    top: int,
    hovered: Option<usize>,
    n: int,
    i: nat,
)
    ensures
        rows_ops(config, active, client, top, hovered, n, 0) == Seq::<OpView>::empty(),
        ({
            let row = rect(22, top + 38 * i, client.right - 22, top + 38 * i + 38);
            let line = OpView::Fill {
                rect: rect(row.left + 14, row.bottom - 1, row.right - 14, row.bottom as int),
                color: 0x262626,
            };
            rows_ops(config, active, client, top, hovered, n, i + 1) == rows_ops(
                config,
                active,
                client,
                top,
                hovered,
                n,
                i,
            ) + row_ops(
                row,
                channels()[i as int],
                row_state(config, active, i as int),
                hovered,
                n + 3 * i,
            ) + (if i + 1 < 11 {
                seq![line]
            } else {
                Seq::<OpView>::empty()
            })
        }),
{
}

/// The regions of a row, in order: the star stars the channel, the eye shows or hides it, and the
/// name between them makes it active.
pub proof fn row_regions_are_star_eye_and_name(client: Rect, top: int, count: nat, i: int)
    requires
        0 <= i < count,
    ensures
        ({
            let r = rows_regions(client, top, count);
            let row = rect(22, top + 38 * i, client.right - 22, top + 38 * i + 38);
            &&& r.len() == 3 * count
            &&& r[3 * i].action == Action::SetFavorite(i as usize)
            &&& r[3 * i].rect == rect(row.left + 14, row.top + 4, row.left + 44, row.top + 34)
            &&& r[3 * i + 1].action == Action::ToggleVisible(i as usize)
            &&& r[3 * i + 1].rect == rect(
                row.right - 44,
                row.top + 4,
                row.right - 14,
                row.top + 34,
            )
            &&& r[3 * i + 2].action == Action::SetActive(i as usize)
            &&& r[3 * i + 2].rect == rect(
                row.left + 50,
                row.top + 2,
                row.right - 50,
                row.bottom - 2,
            )
        }),
{
    assert((3 * i) / 3 == i && (3 * i) % 3 == 0);
    assert((3 * i + 1) / 3 == i && (3 * i + 1) % 3 == 1);
    assert((3 * i + 2) / 3 == i && (3 * i + 2) % 3 == 2);
}

/// The section of the channels: its header, the help button at the right, the panel behind the
/// rows, and the rows.
pub proof fn channels_section_is_laid_out(
    f: FrameView,
    hovered: Option<usize>,
    client: Rect,
    y: int,
    config: ConfigView,
    active: int,
)
    ensures
        ({
            let n = f.regions.len() as int;
            let after = with_channels(f, hovered, client, y, config, active);
            let help = rect(client.right - 48, y - 4, client.right - 22, y + 22);
            &&& after.ops == f.ops + (seq![header_op("CHANNELS"@, 22, y)] + help_button_ops(
                help,
                hovers(hovered, n),
            ) + seq![
                OpView::Round {
                    rect: rect(22, y + 26, client.right - 22, y + 444),
                    fill: 0x1E1E1E,
                    border: 0x1E1E1E,
                    corner: 20,
                },
            ] + rows_ops(config, active, client, y + 26, hovered, n + 1, 11))
            &&& after.regions == f.regions + (seq![
                HitRegion { rect: help, action: Action::OpenHelp },
            ] + rows_regions(client, y + 26, 11))
            &&& channels_end(y) == y + 444
        }),
{
}

/// The section of the hotkey: its header, the box with the hotkey or what to do about it, and a
/// hint below.
pub proof fn hotkey_section_is_laid_out(
    f: FrameView,
    hovered: Option<usize>,
    client: Rect,
    y: int,
    hotkey: Seq<char>,
    recording: bool,
)
    ensures
        ({
            let after = with_hotkey(f, hovered, client, y, hotkey, recording);
            let place = rect(22, y + 46, client.right - 22, y + 84);
            let text = if recording {
                "Press a combination… (Esc to cancel)"@
            } else if hotkey.len() > 0 {
                hotkey
            } else {
                "Click to set a keyboard shortcut"@
            };
            let hint = if recording {
                "Modifier + letter or F-key. Esc to cancel."@
            } else {
                "Cycles the active channel to the next visible one — applied instantly."@
            };
            &&& after.ops == f.ops + (seq![header_op("CYCLE HOTKEY"@, 22, y + 20)] + hotkey_box_ops(
                place,
                text,
                recording,
                hovers(hovered, f.regions.len() as int),
            ) + seq![hint_op(hint, 22, place.bottom + 8)])
            &&& after.regions == f.regions + seq![
                HitRegion { rect: place, action: Action::RecordHotkey },
            ]
            &&& hotkey_end(y) == y + 110
        }),
{
}

/// The autostart switch: one row that shows whether it is on and can be clicked as a whole.
pub proof fn autostart_section_is_laid_out(
    f: FrameView,
    hovered: Option<usize>,
    client: Rect,
    y: int,
    autostart: bool,
)
    ensures
        ({
            let after = with_autostart(f, hovered, client, y, autostart);
            let place = rect(22, y + 18, client.right - 22, y + 56);
            &&& after.ops == f.ops + switch_row_ops(
                place,
                "Start with Windows"@,
                autostart,
                hovers(hovered, f.regions.len() as int),
            )
            &&& after.regions == f.regions + seq![
                HitRegion { rect: place, action: Action::ToggleAutostart },
            ]
            &&& autostart_end(y) == y + 56
        }),
{
}

/// The buttons: the first over the whole width, the other two below it side by side, equally wide
/// and 10 pixels apart.
pub proof fn buttons_are_laid_out(f: FrameView, hovered: Option<usize>, client: Rect, y: int)
    ensures
        ({
            let n = f.regions.len() as int;
            let after = with_buttons(f, hovered, client, y);
            let half = quotient(client.right - 54, 2);
            let reinstall = rect(22, y + 20, client.right - 22, y + 58);
            let logs = rect(22, y + 66, 22 + half, y + 104);
            let folder = rect(32 + half, y + 66, 32 + half + half, y + 104);
            &&& after.ops == f.ops + (pill_ops(
                reinstall,
                "Reinstall keyboard hook"@,
                hovers(hovered, n),
                false,
            ) + pill_ops(logs, "Open log folder"@, hovers(hovered, n + 1), false) + pill_ops(
                folder,
                "Open config folder"@,
                hovers(hovered, n + 2),
                false,
            ))
            &&& after.regions == f.regions + seq![
                HitRegion { rect: reinstall, action: Action::ReinstallHook },
                HitRegion { rect: logs, action: Action::OpenLogFolder },
                HitRegion { rect: folder, action: Action::OpenConfigFolder },
            ]
            &&& buttons_end(y) == y + 104
        }),
{
}

/// The window: its background, and over it the help where that is open, otherwise the four
/// sections of the settings, one below the other, each with what the window and the configuration
/// hold for it.
pub proof fn window_shows_help_or_settings(
    s: WindowState,
    config: ConfigView,
    active: int,
    client: Rect,
)
    ensures
        ({
            let blank = FrameView {
                ops: seq![OpView::Fill { rect: client, color: 0x141414 }],
                regions: Seq::empty(),
            };
            let hotkey = if config.cycle_hotkey is Some {
                config.cycle_hotkey->0
            } else {
                Seq::empty()
            };
            let a = with_channels(blank, s.hovered, client, 22, config, active);
            let b = with_hotkey(a, s.hovered, client, 466, hotkey, s.recording);
            let c = with_autostart(b, s.hovered, client, 576, s.autostart);
            let d = with_buttons(c, s.hovered, client, 632);
            &&& s.show_help ==> shown(s, config, active, client) == with_help(
                blank,
                s.help_lang,
                s.hovered,
                client,
            )
            &&& !s.show_help ==> shown(s, config, active, client) == d
        }),
{
}

/// Where the settings can be clicked, in numbers.
pub proof fn settings_regions_in_numbers(client: Rect, i: int)
    requires
        settings_fit(client),
        0 <= i < 11,
    ensures
        ({
            let r = settings_regions(client);
            let w = client.right as int;
            let half = quotient(w - 54, 2);
            &&& r.len() == 39
            &&& r[0] == (HitRegion {
                rect: rect(w - 48, 18, w - 22, 44),
                action: Action::OpenHelp,
            })
            &&& r[1 + 3 * i] == (HitRegion {
                rect: rect(36, 52 + 38 * i, 66, 82 + 38 * i),
                action: Action::SetFavorite(i as usize),
            })
            &&& r[2 + 3 * i] == (HitRegion {
                rect: rect(w - 66, 52 + 38 * i, w - 36, 82 + 38 * i),
                action: Action::ToggleVisible(i as usize),
            })
            &&& r[3 + 3 * i] == (HitRegion {
                rect: rect(72, 50 + 38 * i, w - 72, 84 + 38 * i),
                action: Action::SetActive(i as usize),
            })
            &&& r[34] == (HitRegion {
                rect: rect(22, 512, w - 22, 550),
                action: Action::RecordHotkey,
            })
            &&& r[35] == (HitRegion {
                rect: rect(22, 594, w - 22, 632),
                action: Action::ToggleAutostart,
            })
            &&& r[36] == (HitRegion {
                rect: rect(22, 652, w - 22, 690),
                action: Action::ReinstallHook,
            })
            &&& r[37] == (HitRegion {
                rect: rect(22, 698, 22 + half, 736),
                action: Action::OpenLogFolder,
            })
            &&& r[38] == (HitRegion {
                rect: rect(32 + half, 698, 32 + half + half, 736),
                action: Action::OpenConfigFolder,
            })
        }),
{
    lemma_row_regions(client, i);
    let r = settings_regions(client);
    let row = row_rect(client, rows_top(22), i);
    assert(r[1 + 3 * i + 0] == row_regions(row, i)[0]);
    assert(r[1 + 3 * i + 1] == row_regions(row, i)[1]);
    assert(r[1 + 3 * i + 2] == row_regions(row, i)[2]);
}

/// The settings can be painted in every window but those whose right edge is almost as far left as
/// numbers go.
pub proof fn settings_fit_but_at_the_edge(client: Rect)
    ensures
        settings_fit(client) <==> client.right >= -2147483648 + 80,
        rows_have_room(client) <==> !(72 < client.right < 132),
{
}

} // verus!
