//! The palette and the pieces that the settings window is made of.

use crate::draw::{
    emit, emit_text, fill_round, fits, label, op_views, quotient, rect, round, DrawOp, Font, Layout,
    OpView, Rect,
};
use crate::settings::HitRegion;
use crate::text::{starts_with, strip_prefix};
use vstd::prelude::*;

verus! {

// Colours, `0x00BBGGRR`. The palette is intentionally small — one accent, three text levels, three
// surfaces — so anywhere a colour is reused the user recognises the intent.
pub const BG: u32 = 0x00141414;

pub const CARD: u32 = 0x001E1E1E;

pub const CARD_HOVER: u32 = 0x00282828;

/// Tint of the row that the volume wheel currently controls.
pub const CARD_ACTIVE: u32 = 0x002A3245;

/// GoXLR orange.
pub const ACCENT: u32 = 0x00339CFB;

pub const ACCENT_HOVER: u32 = 0x0046ADFB;

pub const ACCENT_SOFT: u32 = 0x001D5F95;

pub const TEXT: u32 = 0x00F5F5F5;

pub const TEXT_DIM: u32 = 0x00B0B0B0;

pub const TEXT_FAINT: u32 = 0x00707070;

pub const BORDER: u32 = 0x002C2C2C;

pub const DIVIDER: u32 = 0x00262626;

pub const PADDING: i32 = 22;

pub const SECTION_GAP: i32 = 20;

pub const HEADER_H: i32 = 16;

pub const ROW_H: i32 = 38;

pub const CARD_RADIUS: i32 = 10;

pub const PILL_RADIUS: i32 = 8;

pub const HELP_BTN: i32 = 26;

pub const ICON_BTN: i32 = 30;

pub const SWITCH_W: i32 = 46;

pub const SWITCH_H: i32 = 24;

/// What is drawn of a view, and where it can be clicked.
pub struct Frame {
    pub ops: Vec<DrawOp>,
    pub regions: Vec<HitRegion>,
}

/// What a [`Frame`] holds.
#[verifier::ext_equal]
pub struct FrameView {
    pub ops: Seq<OpView>,
    pub regions: Seq<HitRegion>,
}

impl View for Frame {
    type V = FrameView;

    open spec fn view(&self) -> FrameView {
        FrameView { ops: op_views(self.ops@), regions: self.regions@ }
    }
}

impl FrameView {
    /// The frame with more in it.
    pub open spec fn plus(self, ops: Seq<OpView>, regions: Seq<HitRegion>) -> FrameView {
        FrameView { ops: self.ops + ops, regions: self.regions + regions }
    }
}

/// Whether the region with number `n` is the one under the mouse.
pub open spec fn hovers(hovered: Option<usize>, n: int) -> bool {
    hovered matches Some(i) && i == n
}

/// Whether the region with number `n` is the one under the mouse.
pub fn is_hovered(hovered: Option<usize>, n: usize) -> (r: bool)
    ensures
        r == hovers(hovered, n as int),
{
    match hovered {
        Some(i) => i == n,
        None => false,
    }
}

/// `op` alone, or nothing.
pub open spec fn op_if(on: bool, op: OpView) -> Seq<OpView> {
    if on {
        seq![op]
    } else {
        Seq::empty()
    }
}

// ---------------------------------------------------------------- star and eye

/// The star of a row: filled for the startup channel, an outline otherwise.
pub open spec fn star_ops(r: Rect, favorite: bool, visible: bool, hovered: bool) -> Seq<OpView> {
    let (glyph, color) = if favorite {
        ("\u{E735}"@, ACCENT)
    } else if visible {
        (
            "\u{E734}"@,
            if hovered {
                TEXT
            } else {
                TEXT_DIM
            },
        )
    } else {
        ("\u{E734}"@, TEXT_FAINT)
    };
    op_if(hovered && !favorite, round(r, CARD_HOVER, BORDER, PILL_RADIUS as int)).push(
        label(glyph, Font::Icon, color, r, Layout::Center),
    )
}

/// Draws the star of a row.
pub fn draw_star(ops: &mut Vec<DrawOp>, r: Rect, favorite: bool, visible: bool, hovered: bool)
    ensures
        op_views(final(ops)@) == op_views(old(ops)@) + star_ops(r, favorite, visible, hovered),
{
    if hovered && !favorite {
        fill_round(ops, r, CARD_HOVER, BORDER, PILL_RADIUS);
    }
    let (glyph, color): (&str, u32) = if favorite {
        ("\u{E735}", ACCENT)
    } else if visible {
        (
            "\u{E734}",
            if hovered {
                TEXT
            } else {
                TEXT_DIM
            },
        )
    } else {
        ("\u{E734}", TEXT_FAINT)
    };
    emit_text(ops, glyph, Font::Icon, color, r, Layout::Center);
    assert(op_views(ops@) =~= op_views(old(ops)@) + star_ops(r, favorite, visible, hovered));
}

/// The eye of a row: open where the channel is visible, with a slash where it is hidden.
pub open spec fn eye_ops(r: Rect, visible: bool, hovered: bool) -> Seq<OpView> {
    let (glyph, color) = if visible {
        (
            "\u{E7B3}"@,
            if hovered {
                TEXT
            } else {
                TEXT_DIM
            },
        )
    } else {
        (
            "\u{ED1A}"@,
            if hovered {
                TEXT_DIM
            } else {
                TEXT_FAINT
            },
        )
    };
    op_if(hovered, round(r, CARD_HOVER, BORDER, PILL_RADIUS as int)).push(
        label(glyph, Font::Icon, color, r, Layout::Center),
    )
}

/// Draws the eye of a row.
pub fn draw_eye(ops: &mut Vec<DrawOp>, r: Rect, visible: bool, hovered: bool)
    ensures
        op_views(final(ops)@) == op_views(old(ops)@) + eye_ops(r, visible, hovered),
{
    if hovered {
        fill_round(ops, r, CARD_HOVER, BORDER, PILL_RADIUS);
    }
    let (glyph, color): (&str, u32) = if visible {
        (
            "\u{E7B3}",
            if hovered {
                TEXT
            } else {
                TEXT_DIM
            },
        )
    } else {
        (
            "\u{ED1A}",
            if hovered {
                TEXT_DIM
            } else {
                TEXT_FAINT
            },
        )
    };
    emit_text(ops, glyph, Font::Icon, color, r, Layout::Center);
    assert(op_views(ops@) =~= op_views(old(ops)@) + eye_ops(r, visible, hovered));
}

// ---------------------------------------------------------------- captions

/// The button that opens the help.
pub open spec fn help_button_ops(r: Rect, hovered: bool) -> Seq<OpView> {
    seq![
        round(
            r,
            if hovered {
                CARD_HOVER
            } else {
                BG
            },
            if hovered {
                ACCENT
            } else {
                BORDER
            },
            (HELP_BTN / 2) as int,
        ),
        label(
            "?"@,
            Font::Strong,
            if hovered {
                ACCENT
            } else {
                TEXT_DIM
            },
            r,
            Layout::Center,
        ),
    ]
}

/// Draws the button that opens the help.
pub fn draw_help_button(ops: &mut Vec<DrawOp>, r: Rect, hovered: bool)
    ensures
        op_views(final(ops)@) == op_views(old(ops)@) + help_button_ops(r, hovered),
{
    let border: u32 = if hovered {
        ACCENT
    } else {
        BORDER
    };
    let fill: u32 = if hovered {
        CARD_HOVER
    } else {
        BG
    };
    fill_round(ops, r, fill, border, HELP_BTN / 2);
    let color: u32 = if hovered {
        ACCENT
    } else {
        TEXT_DIM
    };
    emit_text(ops, "?", Font::Strong, color, r, Layout::Center);
    assert(op_views(ops@) =~= op_views(old(ops)@) + help_button_ops(r, hovered));
}

/// The header of a section.
pub open spec fn header_op(text: Seq<char>, x: int, y: int) -> OpView {
    label(text, Font::Header, TEXT_DIM, rect(x, y, x + 400, y + HEADER_H), Layout::Left)
}

/// Draws the header of a section.
pub fn draw_header(ops: &mut Vec<DrawOp>, text: &str, x: i32, y: i32)
    requires
        fits(x + 400),
        fits(y + HEADER_H),
    ensures
        op_views(final(ops)@) == op_views(old(ops)@).push(header_op(text@, x as int, y as int)),
{
    emit_text(
        ops,
        text,
        Font::Header,
        TEXT_DIM,
        Rect { left: x, top: y, right: x + 400, bottom: y + HEADER_H },
        Layout::Left,
    );
}

/// A hint below a control.
pub open spec fn hint_op(text: Seq<char>, x: int, y: int) -> OpView {
    label(text, Font::Body, TEXT_FAINT, rect(x, y, x + 460, y + 18), Layout::Left)
}

/// Draws a hint below a control.
pub fn draw_hint(ops: &mut Vec<DrawOp>, text: &str, x: i32, y: i32)
    requires
        fits(x + 460),
        fits(y + 18),
    ensures
        op_views(final(ops)@) == op_views(old(ops)@).push(hint_op(text@, x as int, y as int)),
{
    emit_text(
        ops,
        text,
        Font::Body,
        TEXT_FAINT,
        Rect { left: x, top: y, right: x + 460, bottom: y + 18 },
        Layout::Left,
    );
}

// ---------------------------------------------------------------- boxes and buttons

/// The box that shows the cycle hotkey. The text is faint where it only invites to set one.
pub open spec fn hotkey_box_ops(r: Rect, text: Seq<char>, recording: bool, hovered: bool) -> Seq<
    OpView,
> {
    seq![
        round(
            r,
            if recording {
                CARD_HOVER
            } else {
                CARD
            },
            if recording {
                ACCENT
            } else if hovered {
                ACCENT_SOFT
            } else {
                BORDER
            },
            PILL_RADIUS as int,
        ),
        label(
            text,
            Font::Body,
            if recording {
                ACCENT
            } else if starts_with(text, "Click"@) {
                TEXT_FAINT
            } else {
                TEXT
            },
            rect(r.left + 16, r.top as int, r.right - 16, r.bottom as int),
            Layout::Left,
        ),
    ]
}

/// Draws the box that shows the cycle hotkey.
pub fn draw_hotkey_box(ops: &mut Vec<DrawOp>, r: Rect, text: &str, recording: bool, hovered: bool)
    requires
        fits(r.left + 16),
        fits(r.right - 16),
    ensures
        op_views(final(ops)@) == op_views(old(ops)@) + hotkey_box_ops(r, text@, recording, hovered),
{
    let fill: u32 = if recording {
        CARD_HOVER
    } else {
        CARD
    };
    let border: u32 = if recording {
        ACCENT
    } else if hovered {
        ACCENT_SOFT
    } else {
        BORDER
    };
    fill_round(ops, r, fill, border, PILL_RADIUS);
    let placeholder = !recording && strip_prefix(text, "Click").is_some();
    let color: u32 = if recording {
        ACCENT
    } else if placeholder {
        TEXT_FAINT
    } else {
        TEXT
    };
    emit_text(
        ops,
        text,
        Font::Body,
        color,
        Rect { left: r.left + 16, top: r.top, right: r.right - 16, bottom: r.bottom },
        Layout::Left,
    );
    assert(op_views(ops@) =~= op_views(old(ops)@) + hotkey_box_ops(r, text@, recording, hovered));
}

/// A button.
pub open spec fn pill_ops(r: Rect, text: Seq<char>, hovered: bool, accent: bool) -> Seq<OpView> {
    let fill = if accent {
        if hovered {
            ACCENT_HOVER
        } else {
            ACCENT_SOFT
        }
    } else if hovered {
        CARD_HOVER
    } else {
        CARD
    };
    let border = if accent {
        fill
    } else if hovered {
        ACCENT_SOFT
    } else {
        BORDER
    };
    seq![
        round(r, fill, border, PILL_RADIUS as int),
        label(text, Font::Strong, TEXT, r, Layout::Center),
    ]
}

/// Draws a button.
pub fn draw_pill_button(ops: &mut Vec<DrawOp>, r: Rect, text: &str, hovered: bool, accent: bool)
    ensures
        op_views(final(ops)@) == op_views(old(ops)@) + pill_ops(r, text@, hovered, accent),
{
    let fill: u32 = if accent {
        if hovered {
            ACCENT_HOVER
        } else {
            ACCENT_SOFT
        }
    } else if hovered {
        CARD_HOVER
    } else {
        CARD
    };
    let border: u32 = if accent {
        fill
    } else if hovered {
        ACCENT_SOFT
    } else {
        BORDER
    };
    fill_round(ops, r, fill, border, PILL_RADIUS);
    emit_text(ops, text, Font::Strong, TEXT, r, Layout::Center);
    assert(op_views(ops@) =~= op_views(old(ops)@) + pill_ops(r, text@, hovered, accent));
}

/// A tab of the language switch.
pub open spec fn tab_ops(r: Rect, text: Seq<char>, active: bool, hovered: bool) -> Seq<OpView> {
    let fill = if active {
        if hovered {
            ACCENT_HOVER
        } else {
            ACCENT_SOFT
        }
    } else if hovered {
        CARD_HOVER
    } else {
        CARD
    };
    seq![
        round(
            r,
            fill,
            if active {
                fill
            } else {
                BORDER
            },
            PILL_RADIUS as int,
        ),
        label(
            text,
            Font::Strong,
            if active {
                TEXT
            } else {
                TEXT_DIM
            },
            r,
            Layout::Center,
        ),
    ]
}

/// Draws a tab of the language switch.
pub fn draw_language_tab(ops: &mut Vec<DrawOp>, r: Rect, text: &str, active: bool, hovered: bool)
    ensures
        op_views(final(ops)@) == op_views(old(ops)@) + tab_ops(r, text@, active, hovered),
{
    let fill: u32 = if active {
        if hovered {
            ACCENT_HOVER
        } else {
            ACCENT_SOFT
        }
    } else if hovered {
        CARD_HOVER
    } else {
        CARD
    };
    let border: u32 = if active {
        fill
    } else {
        BORDER
    };
    let color: u32 = if active {
        TEXT
    } else {
        TEXT_DIM
    };
    fill_round(ops, r, fill, border, PILL_RADIUS);
    emit_text(ops, text, Font::Strong, color, r, Layout::Center);
    assert(op_views(ops@) =~= op_views(old(ops)@) + tab_ops(r, text@, active, hovered));
}

// ---------------------------------------------------------------- switch

/// A switch: a track with round ends and a knob, to the right where it is on.
pub open spec fn switch_ops(r: Rect, on: bool, hovered: bool) -> Seq<OpView> {
    let track = if on {
        if hovered {
            ACCENT_HOVER
        } else {
            ACCENT
        }
    } else if hovered {
        CARD_HOVER
    } else {
        BORDER
    };
    let h = r.bottom - r.top;
    let knob = h - 6;
    let kx = if on {
        r.right - knob - 3
    } else {
        r.left + 3
    };
    let ky = r.top + 3;
    let color = if on {
        TEXT
    } else if hovered {
        TEXT_DIM
    } else {
        TEXT_FAINT
    };
    seq![
        OpView::Round {
            rect: r,
            fill: track,
            border: track,
            corner: (if h < 0 {
                -h
            } else {
                h
            }) as i32,
        },
        OpView::Disc { rect: rect(kx, ky, kx + knob, ky + knob), color },
    ]
}

/// Whether a switch can be drawn: no number on the way is too large.
pub open spec fn switch_fits(r: Rect, on: bool) -> bool {
    let h = r.bottom - r.top;
    let knob = h - 6;
    let kx = if on {
        r.right - knob - 3
    } else {
        r.left + 3
    };
    &&& fits(h)
    &&& fits(-h)
    &&& fits(knob)
    &&& on ==> fits(r.right - knob)
    &&& fits(kx)
    &&& fits(kx + knob)
    &&& fits(r.top + 3)
    &&& fits(r.top + 3 + knob)
}

/// Draws a switch.
pub fn draw_switch(ops: &mut Vec<DrawOp>, r: Rect, on: bool, hovered: bool)
    requires
        switch_fits(r, on),
    ensures
        op_views(final(ops)@) == op_views(old(ops)@) + switch_ops(r, on, hovered),
{
    let track: u32 = if on {
        if hovered {
            ACCENT_HOVER
        } else {
            ACCENT
        }
    } else if hovered {
        CARD_HOVER
    } else {
        BORDER
    };
    let h: i32 = r.bottom - r.top;
    let corner: i32 = if h < 0 {
        -h
    } else {
        h
    };
    emit(ops, DrawOp::Round { rect: r, fill: track, border: track, corner });
    let knob: i32 = h - 6;
    let kx: i32 = if on {
        r.right - knob - 3
    } else {
        r.left + 3
    };
    let ky: i32 = r.top + (h - knob) / 2;
    let color: u32 = if on {
        TEXT
    } else if hovered {
        TEXT_DIM
    } else {
        TEXT_FAINT
    };
    emit(
        ops,
        DrawOp::Disc {
            rect: Rect { left: kx, top: ky, right: kx + knob, bottom: ky + knob },
            color,
        },
    );
    assert(op_views(ops@) =~= op_views(old(ops)@) + switch_ops(r, on, hovered));
}

/// Where the switch of a row stands: at its right end, in the middle of its height.
pub open spec fn switch_rect(r: Rect) -> Rect {
    let sx = r.right - SWITCH_W - 4;
    let sy = r.top + quotient(r.bottom - r.top - SWITCH_H, 2);
    rect(sx, sy, sx + SWITCH_W, sy + SWITCH_H)
}

/// A row with a caption and a switch.
pub open spec fn switch_row_ops(r: Rect, text: Seq<char>, on: bool, hovered: bool) -> Seq<OpView> {
    seq![
        label(
            text,
            Font::Body,
            TEXT,
            rect(r.left + 4, r.top as int, r.right - SWITCH_W - 12, r.bottom as int),
            Layout::Left,
        ),
    ] + switch_ops(switch_rect(r), on, hovered)
}

/// Whether a row with a switch can be drawn: no number on the way is too large.
pub open spec fn switch_row_fits(r: Rect) -> bool {
    let sy = r.top + quotient(r.bottom - r.top - SWITCH_H, 2);
    &&& fits(r.left + 4)
    &&& fits(r.right - SWITCH_W - 12)
    &&& fits(r.bottom - r.top)
    &&& fits(r.bottom - r.top - SWITCH_H)
    &&& fits(sy)
    &&& fits(sy + SWITCH_H)
}

/// Draws a row with a caption and a switch.
pub fn draw_switch_row(ops: &mut Vec<DrawOp>, r: Rect, text: &str, on: bool, hovered: bool)
    requires
        switch_row_fits(r),
    ensures
        op_views(final(ops)@) == op_views(old(ops)@) + switch_row_ops(r, text@, on, hovered),
{
    emit_text(
        ops,
        text,
        Font::Body,
        TEXT,
        Rect { left: r.left + 4, top: r.top, right: r.right - SWITCH_W - 12, bottom: r.bottom },
        Layout::Left,
    );
    let sx: i32 = r.right - SWITCH_W - 4;
    let sy: i32 = r.top + crate::draw::divide(r.bottom - r.top - SWITCH_H, 2);
    let place = Rect { left: sx, top: sy, right: sx + SWITCH_W, bottom: sy + SWITCH_H };
    draw_switch(ops, place, on, hovered);
    assert(op_views(ops@) =~= op_views(old(ops)@) + switch_row_ops(r, text@, on, hovered));
}

// ---------------------------------------------------------------- laws

/// The view of a frame is what it holds, and adding to it puts the new behind the old.
pub proof fn frame_grows_at_its_end(f: Frame, ops: Seq<OpView>, regions: Seq<HitRegion>)
    ensures
        f@.ops == op_views(f.ops@),
        f@.regions == f.regions@,
        ({
            let more = f@.plus(ops, regions);
            &&& more.ops.len() == f@.ops.len() + ops.len()
            &&& more.regions.len() == f@.regions.len() + regions.len()
            &&& more.ops.take(f@.ops.len() as int) == f@.ops
            &&& more.ops.skip(f@.ops.len() as int) == ops
            &&& more.regions.take(f@.regions.len() as int) == f@.regions
            &&& more.regions.skip(f@.regions.len() as int) == regions
        }),
{
    let more = f@.plus(ops, regions);
    assert(more.ops.take(f@.ops.len() as int) =~= f@.ops);
    assert(more.ops.skip(f@.ops.len() as int) =~= ops);
    assert(more.regions.take(f@.regions.len() as int) =~= f@.regions);
    assert(more.regions.skip(f@.regions.len() as int) =~= regions);
}

/// A region is under the mouse exactly where its number is the one noted, and an operation that is
/// drawn on a condition is there alone where it holds.
pub proof fn hovering_goes_by_number(hovered: Option<usize>, n: usize, on: bool, op: OpView)
    ensures
        hovers(hovered, n as int) <==> hovered == Some(n),
        !hovers(None, n as int),
        op_if(on, op).len() == (if on {
            1int
        } else {
            0
        }),
        on ==> op_if(on, op)[0] == op,
{
}

/// The star: filled and orange for the startup channel, an outline that fades with the channel
/// otherwise, on a surface of its own where it can be clicked to good effect.
pub proof fn star_by_state(r: Rect, favorite: bool, visible: bool, hovered: bool)
    ensures
        ({
            let ops = star_ops(r, favorite, visible, hovered);
            let star = ops.last();
            &&& ops.len() == (if hovered && !favorite {
                2int
            } else {
                1
            })
            &&& hovered && !favorite ==> ops[0] == (OpView::Round {
                rect: r,
                fill: 0x282828,
                border: 0x2C2C2C,
                corner: 16,
            })
            &&& star is Text && star->Text_rect == r
            &&& star->font == Font::Icon && star->layout == Layout::Center
            &&& favorite ==> star->text == "\u{E735}"@ && star->Text_color == 0x339CFB
            &&& !favorite ==> star->text == "\u{E734}"@
            &&& !favorite && !visible ==> star->Text_color == 0x707070
            &&& !favorite && visible && !hovered ==> star->Text_color == 0xB0B0B0
            &&& !favorite && visible && hovered ==> star->Text_color == 0xF5F5F5
        }),
{
}

/// The eye: open or with a slash by the channel's visibility, fainter where hidden, brighter and
/// on a surface where hovered.
pub proof fn eye_by_state(r: Rect, visible: bool, hovered: bool)
    ensures
        ({
            let ops = eye_ops(r, visible, hovered);
            let eye = ops.last();
            &&& ops.len() == (if hovered {
                2int
            } else {
                1
            })
            &&& hovered ==> ops[0] == (OpView::Round {
                rect: r,
                fill: 0x282828,
                border: 0x2C2C2C,
                corner: 16,
            })
            &&& eye is Text && eye->Text_rect == r
            &&& eye->font == Font::Icon && eye->layout == Layout::Center
            &&& visible ==> eye->text == "\u{E7B3}"@
            &&& !visible ==> eye->text == "\u{ED1A}"@
            &&& visible && hovered ==> eye->Text_color == 0xF5F5F5
            &&& visible != hovered ==> eye->Text_color == 0xB0B0B0
            &&& !visible && !hovered ==> eye->Text_color == 0x707070
        }),
{
}

/// The help button: a disc with a question mark, orange where hovered.
pub proof fn help_button_by_state(r: Rect, hovered: bool)
    ensures
        ({
            let ops = help_button_ops(r, hovered);
            &&& ops.len() == 2
            &&& hovered ==> ops[0] == (OpView::Round {
                rect: r,
                fill: 0x282828,
                border: 0x339CFB,
                corner: 26,
            })
            &&& !hovered ==> ops[0] == (OpView::Round {
                rect: r,
                fill: 0x141414,
                border: 0x2C2C2C,
                corner: 26,
            })
            &&& ops[1] is Text && ops[1]->text == "?"@ && ops[1]->Text_rect == r
            &&& ops[1]->font == Font::Strong && ops[1]->layout == Layout::Center
            &&& hovered ==> ops[1]->Text_color == 0x339CFB
            &&& !hovered ==> ops[1]->Text_color == 0xB0B0B0
        }),
{
}

/// Headers and hints stand with their top left corner where they are put.
pub proof fn captions_stand_where_put(text: Seq<char>, x: int, y: int)
    ensures
        ({
            let header = header_op(text, x, y);
            &&& header is Text && header->text == text
            &&& header->font == Font::Header && header->layout == Layout::Left
            &&& header->Text_color == 0xB0B0B0
            &&& header->Text_rect == rect(x, y, x + 400, y + 16)
        }),
        ({
            let hint = hint_op(text, x, y);
            &&& hint is Text && hint->text == text
            &&& hint->font == Font::Body && hint->layout == Layout::Left
            &&& hint->Text_color == 0x707070
            &&& hint->Text_rect == rect(x, y, x + 460, y + 18)
        }),
{
}

/// The box of the hotkey: all orange during a recording; otherwise an edge that answers to the
/// mouse, and text that is faint where it begins with an invitation to click.
pub proof fn hotkey_box_by_state(r: Rect, text: Seq<char>, recording: bool, hovered: bool)
    ensures
        ({
            let ops = hotkey_box_ops(r, text, recording, hovered);
            let invites = text.len() >= 5 && text.take(5) == seq!['C', 'l', 'i', 'c', 'k'];
            &&& ops.len() == 2
            &&& ops[0] is Round && ops[0]->Round_rect == r && ops[0]->corner == 16
            &&& recording ==> ops[0]->fill == 0x282828 && ops[0]->border == 0x339CFB
            &&& !recording ==> ops[0]->fill == 0x1E1E1E
            &&& !recording && hovered ==> ops[0]->border == 0x1D5F95
            &&& !recording && !hovered ==> ops[0]->border == 0x2C2C2C
            &&& ops[1] is Text && ops[1]->text == text
            &&& ops[1]->font == Font::Body && ops[1]->layout == Layout::Left
            &&& ops[1]->Text_rect == rect(
                r.left + 16,
                r.top as int,
                r.right - 16,
                r.bottom as int,
            )
            &&& recording ==> ops[1]->Text_color == 0x339CFB
            &&& !recording && invites ==> ops[1]->Text_color == 0x707070
            &&& !recording && !invites ==> ops[1]->Text_color == 0xF5F5F5
        }),
{
    reveal_strlit("Click");
    assert("Click"@ =~= seq!['C', 'l', 'i', 'c', 'k']);
    crate::text::beginning_and_rest_make_the_string(text, "Click"@);
    if text.len() >= 5 && text.take(5) == "Click"@ {
        assert(starts_with(text, "Click"@));
    }
}

/// A button: filled with the accent where it is the one to press, else a surface with an edge that
/// answers to the mouse.
pub proof fn button_by_state(r: Rect, text: Seq<char>, hovered: bool, accent: bool)
    ensures
        ({
            let ops = pill_ops(r, text, hovered, accent);
            &&& ops.len() == 2
            &&& ops[0] is Round && ops[0]->Round_rect == r && ops[0]->corner == 16
            &&& accent && hovered ==> ops[0]->fill == 0x46ADFB && ops[0]->border == 0x46ADFB
            &&& accent && !hovered ==> ops[0]->fill == 0x1D5F95 && ops[0]->border == 0x1D5F95
            &&& !accent && hovered ==> ops[0]->fill == 0x282828 && ops[0]->border == 0x1D5F95
            &&& !accent && !hovered ==> ops[0]->fill == 0x1E1E1E && ops[0]->border == 0x2C2C2C
            &&& ops[1] == (OpView::Text {
                text,
                font: Font::Strong,
                color: 0xF5F5F5,
                rect: r,
                layout: Layout::Center,
            })
        }),
{
}

/// A tab: filled and bright where it is the chosen one, else a surface with an edge and dim text.
pub proof fn tab_by_state(r: Rect, text: Seq<char>, active: bool, hovered: bool)
    ensures
        ({
            let ops = tab_ops(r, text, active, hovered);
            &&& ops.len() == 2
            &&& ops[0] is Round && ops[0]->Round_rect == r && ops[0]->corner == 16
            &&& active && hovered ==> ops[0]->fill == 0x46ADFB && ops[0]->border == 0x46ADFB
            &&& active && !hovered ==> ops[0]->fill == 0x1D5F95 && ops[0]->border == 0x1D5F95
            &&& !active && hovered ==> ops[0]->fill == 0x282828 && ops[0]->border == 0x2C2C2C
            &&& !active && !hovered ==> ops[0]->fill == 0x1E1E1E && ops[0]->border == 0x2C2C2C
            &&& ops[1] is Text && ops[1]->text == text && ops[1]->Text_rect == r
            &&& ops[1]->font == Font::Strong && ops[1]->layout == Layout::Center
            &&& active ==> ops[1]->Text_color == 0xF5F5F5
            &&& !active ==> ops[1]->Text_color == 0xB0B0B0
        }),
{
}

/// A switch: the knob is a disc, 3 pixels inside of the track on every side but the one it has been
/// moved away from, to the right where the switch is on and to the left where it is off.
pub proof fn switch_by_state(r: Rect, on: bool, hovered: bool)
    ensures
        ({
            let ops = switch_ops(r, on, hovered);
            let knob = ops[1];
            let h = r.bottom - r.top;
            &&& ops.len() == 2
            &&& ops[0] is Round && ops[0]->Round_rect == r
            &&& h >= 0 ==> ops[0]->corner == h as i32
            &&& h < 0 ==> ops[0]->corner == (-h) as i32
            &&& ops[0]->border == ops[0]->fill
            &&& on && hovered ==> ops[0]->fill == 0x46ADFB
            &&& on && !hovered ==> ops[0]->fill == 0x339CFB
            &&& !on && hovered ==> ops[0]->fill == 0x282828
            &&& !on && !hovered ==> ops[0]->fill == 0x2C2C2C
            &&& knob is Disc
            &&& on ==> knob->Disc_rect == rect(
                r.right - h + 3,
                r.top + 3,
                r.right - 3,
                r.bottom - 3,
            )
            &&& !on ==> knob->Disc_rect == rect(
                r.left + 3,
                r.top + 3,
                r.left + h - 3,
                r.bottom - 3,
            )
            &&& on ==> knob->Disc_color == 0xF5F5F5
            &&& !on && hovered ==> knob->Disc_color == 0xB0B0B0
            &&& !on && !hovered ==> knob->Disc_color == 0x707070
        }),
{
}

/// The switch of a row is 46 by 24, ends 4 pixels before the row does, and leaves as much of the
/// row above as below, but for one pixel.
pub proof fn switch_stands_at_the_end_of_its_row(r: Rect, above: int)
    requires
        r.bottom - r.top >= 24 ==> 0 <= (r.bottom - r.top - 24 - above) - above <= 1,
        r.bottom - r.top < 24 ==> -1 <= (r.bottom - r.top - 24 - above) - above <= 0,
    ensures
        switch_rect(r) == rect(r.right - 50, r.top + above, r.right - 4, r.top + above + 24),
{
}

/// A row with a switch is its caption and the switch, the caption from the row's left edge to where
/// the switch begins.
pub proof fn switch_row_is_caption_and_switch(r: Rect, text: Seq<char>, on: bool, hovered: bool)
    ensures
        ({
            let ops = switch_row_ops(r, text, on, hovered);
            &&& ops.len() == 3
            &&& ops[0] == (OpView::Text {
                text,
                font: Font::Body,
                color: 0xF5F5F5,
                rect: rect(r.left + 4, r.top as int, r.right - 58, r.bottom as int),
                layout: Layout::Left,
            })
            &&& ops.skip(1) == switch_ops(switch_rect(r), on, hovered)
        }),
{
    assert(switch_row_ops(r, text, on, hovered).skip(1) =~= switch_ops(
        switch_rect(r),
        on,
        hovered,
    ));
}

} // verus!
