//! The on-screen display: what it shows and where, and how the system's own volume display is
//! recognised and put out of sight.

use crate::draw::{
    divide, emit, emit_text, fits, label, op_views, quotient, rect, DrawOp, Font, Layout, OpView,
    Rect,
};
use crate::text::{chars_of, parse_u32, push_signed, same, signed_decimal, u32_of};
use vstd::prelude::*;

verus! {

/// Colours, `0x00BBGGRR`.
pub const COLOR_BG: u32 = 0x001F1F1F;

pub const COLOR_TRACK: u32 = 0x003C3C3C;

/// GoXLR orange.
pub const COLOR_FILL: u32 = 0x00339CFB;

pub const COLOR_TEXT: u32 = 0x00FFFFFF;

pub const OSD_WIDTH: i32 = 380;

pub const OSD_HEIGHT: i32 = 64;

/// Radius of the window's corners.
pub const OSD_RADIUS: i32 = 14;

pub const PADDING: i32 = 18;

pub const NAME_WIDTH: i32 = 110;

pub const NUMBER_WIDTH: i32 = 48;

pub const BAR_HEIGHT: i32 = 6;

/// Timer that hides the display, and its interval.
pub const HIDE_TIMER_ID: usize = 1;

pub const HIDE_TIMER_MS: u32 = 1500;

/// Timer that looks for the system's display, and its interval.
pub const SUPPRESS_TIMER_ID: usize = 2;

pub const SUPPRESS_TIMER_MS: u32 = 1000;

/// Win32 messages; the last one, `WM_APP + 10`, tells the display's thread of an update.
pub const WM_PAINT: u32 = 0x000F;

pub const WM_TIMER: u32 = 0x0113;

pub const WM_OSD_UPDATE: u32 = 0x800A;

/// Accessibility event of a window being shown, and the object it is about.
pub const EVENT_OBJECT_SHOW: u32 = 0x8002;

pub const OBJID_WINDOW: i32 = 0;

/// First build number of Windows 11.
pub const FIRST_WIN11_BUILD: u32 = 22000;

/// Extended window style of a layered window.
pub const WS_EX_LAYERED: i32 = 0x0008_0000;

/// Coordinate at which a window is out of sight of every monitor.
pub const OFF_SCREEN: i32 = -32000;

// ---------------------------------------------------------------- state

/// What the display shows.
pub struct OsdState {
    pub channel: String,
    pub value: i32,
    pub max: i32,
}

/// What the display shows before anything was told.
pub fn start() -> (r: OsdState)
    ensures
        r.channel@ == Seq::<char>::empty(),
        r.value == 0,
        r.max == 255,
{
    OsdState { channel: String::new(), value: 0, max: 255 }
}

impl OsdState {
    /// Takes in what to show.
    pub fn show(&mut self, channel: &str, value: i32, max: i32)
        ensures
            final(self).channel@ == channel@,
            final(self).value == value,
            final(self).max == max,
    {
        self.channel = channel.to_owned();
        self.value = value;
        self.max = max;
    }
}

/// The message that tells the display's thread of an update; none while it is not running.
pub fn show(thread_id: u32) -> (r: Option<u32>)
    ensures
        r == (if thread_id != 0 {
            Some(WM_OSD_UPDATE)
        } else {
            None
        }),
{
    if thread_id != 0 {
        Some(WM_OSD_UPDATE)
    } else {
        None
    }
}

/// What the display's window does about a message.
#[derive(Clone, Copy, Debug, PartialEq, Eq, Structural)]
pub enum OsdAction {
    /// Look for the system's display, show the window, repaint it and start the hide timer over.
    Refresh,
    /// Paint.
    Paint,
    /// Stop the hide timer and hide the window.
    Hide,
    /// Look for the system's display.
    Sweep,
    /// What the system does by default.
    Default,
}

/// Decides about a message in the queue of the display's thread.
pub fn thread_main(msg: u32) -> (r: OsdAction)
    ensures
        r == (if msg == WM_OSD_UPDATE {
            OsdAction::Refresh
        } else {
            OsdAction::Default
        }),
{
    if msg == WM_OSD_UPDATE {
        OsdAction::Refresh
    } else {
        OsdAction::Default
    }
}

/// Decides about a message to the display's window.
pub fn wndproc(msg: u32, w_param: usize) -> (r: OsdAction)
    ensures
        r == (if msg == WM_PAINT {
            OsdAction::Paint
        } else if msg == WM_TIMER && w_param == HIDE_TIMER_ID {
            OsdAction::Hide
        } else if msg == WM_TIMER && w_param == SUPPRESS_TIMER_ID {
            OsdAction::Sweep
        } else {
            OsdAction::Default
        }),
{
    if msg == WM_PAINT {
        OsdAction::Paint
    } else if msg == WM_TIMER && w_param == HIDE_TIMER_ID {
        OsdAction::Hide
    } else if msg == WM_TIMER && w_param == SUPPRESS_TIMER_ID {
        OsdAction::Sweep
    } else {
        OsdAction::Default
    }
}

// ---------------------------------------------------------------- place

/// Whether a build number is that of Windows 11; one that is unknown or no number is not.
pub fn is_win11(build: Option<&str>) -> (r: bool)
    ensures
        r == (build matches Some(b) && u32_of(b@) matches Some(n) && n >= FIRST_WIN11_BUILD),
{
    match build {
        Some(b) => match parse_u32(&chars_of(b)) {
            Some(n) => n >= FIRST_WIN11_BUILD,
            None => false,
        },
        None => false,
    }
}

/// Where the display stands on a screen: directly over the system's own, which Windows 11 puts at
/// bottom-center and Windows 10 at top-center.
pub fn position(screen_w: i32, screen_h: i32, win11: bool) -> (r: (i32, i32))
    requires
        fits(screen_w - OSD_WIDTH),
        win11 ==> fits(screen_h - OSD_HEIGHT - 80),
    ensures
        r.0 == quotient(screen_w - OSD_WIDTH, 2),
        r.1 == (if win11 {
            screen_h - OSD_HEIGHT - 80
        } else {
            72
        }),
{
    let x = divide(screen_w - OSD_WIDTH, 2);
    let y: i32 = if win11 {
        screen_h - OSD_HEIGHT - 80
    } else {
        72
    };
    (x, y)
}

// ---------------------------------------------------------------- painting

/// Left and right end of the bar, between name and number, and its top.
pub open spec fn bar_left() -> int {
    PADDING + NAME_WIDTH + 12
}

pub open spec fn bar_right() -> int {
    OSD_WIDTH - PADDING - NUMBER_WIDTH - 12
}

pub open spec fn bar_top() -> int {
    (OSD_HEIGHT - BAR_HEIGHT) / 2
}

/// `value` as a share of `max` in parts of `whole`, rounded towards zero; nothing where there is
/// no maximum.
pub open spec fn share(whole: int, value: int, max: int) -> int {
    if max > 0 {
        quotient(whole * value, max)
    } else {
        0
    }
}

/// What the display draws: the channel's name on the left, the percentage on the right, and a bar
/// between them that is filled by the same share.
pub open spec fn osd_ops(channel: Seq<char>, value: int, max: int) -> Seq<OpView> {
    let filled = share(bar_right() - bar_left(), value, max);
    let base = seq![
        OpView::Fill { rect: rect(0, 0, OSD_WIDTH as int, OSD_HEIGHT as int), color: COLOR_BG },
        label(
            channel,
            Font::Osd,
            COLOR_TEXT,
            rect(PADDING as int, 0, PADDING + NAME_WIDTH, OSD_HEIGHT as int),
            Layout::Left,
        ),
        label(
            signed_decimal(share(100, value, max)),
            Font::Osd,
            COLOR_TEXT,
            rect(
                OSD_WIDTH - PADDING - NUMBER_WIDTH,
                0,
                OSD_WIDTH - PADDING,
                OSD_HEIGHT as int,
            ),
            Layout::Right,
        ),
        OpView::Fill {
            rect: rect(bar_left(), bar_top(), bar_right(), bar_top() + BAR_HEIGHT),
            color: COLOR_TRACK,
        },
    ];
    if filled > 0 {
        base.push(
            OpView::Fill {
                rect: rect(bar_left(), bar_top(), bar_left() + filled, bar_top() + BAR_HEIGHT),
                color: COLOR_FILL,
            },
        )
    } else {
        base
    }
}

/// Whether a state can be painted: no number on the way is too large.
pub open spec fn paintable(value: int, max: int) -> bool {
    max > 0 ==> {
        &&& fits(value * 100)
        &&& fits((bar_right() - bar_left()) * value)
        &&& fits(bar_left() + share(bar_right() - bar_left(), value, max))
    }
}

/// What the display draws.
pub fn paint(state: &OsdState) -> (r: Vec<DrawOp>)
    requires
        paintable(state.value as int, state.max as int),
    ensures
        op_views(r@) == osd_ops(state.channel@, state.value as int, state.max as int),
{
    let mut ops: Vec<DrawOp> = Vec::new();
    assert(op_views(ops@) =~= Seq::<OpView>::empty());
    emit(
        &mut ops,
        DrawOp::Fill {
            rect: Rect { left: 0, top: 0, right: OSD_WIDTH, bottom: OSD_HEIGHT },
            color: COLOR_BG,
        },
    );
    emit_text(
        &mut ops,
        state.channel.as_str(),
        Font::Osd,
        COLOR_TEXT,
        Rect { left: PADDING, top: 0, right: PADDING + NAME_WIDTH, bottom: OSD_HEIGHT },
        Layout::Left,
    );
    let percent: i32 = if state.max > 0 {
        divide(state.value * 100, state.max)
    } else {
        0
    };
    let mut number = String::new();
    push_signed(&mut number, percent);
    assert(number@ =~= signed_decimal(percent as int));
    emit_text(
        &mut ops,
        number.as_str(),
        Font::Osd,
        COLOR_TEXT,
        Rect {
            left: OSD_WIDTH - PADDING - NUMBER_WIDTH,
            top: 0,
            right: OSD_WIDTH - PADDING,
            bottom: OSD_HEIGHT,
        },
        Layout::Right,
    );
    let bar_x_start: i32 = PADDING + NAME_WIDTH + 12;
    let bar_x_end: i32 = OSD_WIDTH - PADDING - NUMBER_WIDTH - 12;
    let bar_y: i32 = (OSD_HEIGHT - BAR_HEIGHT) / 2;
    emit(
        &mut ops,
        DrawOp::Fill {
            rect: Rect {
                left: bar_x_start,
                top: bar_y,
                right: bar_x_end,
                bottom: bar_y + BAR_HEIGHT,
            },
            color: COLOR_TRACK,
        },
    );
    let bar_w: i32 = bar_x_end - bar_x_start;
    let fill_w: i32 = if state.max > 0 {
        divide(bar_w * state.value, state.max)
    } else {
        0
    };
    if fill_w > 0 {
        emit(
            &mut ops,
            DrawOp::Fill {
                rect: Rect {
                    left: bar_x_start,
                    top: bar_y,
                    right: bar_x_start + fill_w,
                    bottom: bar_y + BAR_HEIGHT,
                },
                color: COLOR_FILL,
            },
        );
    }
    assert(op_views(ops@) =~= osd_ops(state.channel@, state.value as int, state.max as int));
    ops
}

// ---------------------------------------------------------------- the system's display

/// Whether an accessibility event is about a window that was just shown.
pub fn win_event_proc(event: u32, id_object: i32, window_given: bool) -> (r: bool)
    ensures
        r == (event == EVENT_OBJECT_SHOW && id_object == OBJID_WINDOW && window_given),
{
    event == EVENT_OBJECT_SHOW && id_object == OBJID_WINDOW && window_given
}

/// Host classes Windows has used for its volume display.
pub open spec fn host_class(class: Seq<char>) -> bool {
    class == "NativeHWNDHost"@ || class == "XamlExplorerHostIslandWindow"@ || class
        == "Windows.UI.Core.CoreWindow"@
}

/// Whether a size is that of the volume display: a short pill, not full-width.
pub open spec fn pill_size(w: int, h: int) -> bool {
    20 < h < 300 && 100 < w < 800
}

/// The log line about a window of a host class.
pub open spec fn probe_text(class: Seq<char>, r: Rect) -> Seq<char> {
    "[osd-probe] class="@ + class + " size="@ + signed_decimal(r.right - r.left) + "x"@
        + signed_decimal(r.bottom - r.top) + " pos=("@ + signed_decimal(r.left as int) + ","@
        + signed_decimal(r.top as int) + ")"@
}

/// The log line about a window that is put out of sight.
pub open spec fn yeet_text(class: Seq<char>, r: Rect) -> Seq<char> {
    "[osd-yeet] class="@ + class + " "@ + signed_decimal(r.right - r.left) + "x"@ + signed_decimal(
        r.bottom - r.top,
    )
}

/// Whether a window of this class is looked at more closely.
pub fn is_host_class(class: &str) -> (r: bool)
    ensures
        r == host_class(class@),
{
    same(class, "NativeHWNDHost") || same(class, "XamlExplorerHostIslandWindow") || same(
        class,
        "Windows.UI.Core.CoreWindow",
    )
}

/// What is done about a window.
#[derive(Debug, PartialEq, Eq)]
pub struct WindowVerdict {
    /// What to log about the window.
    pub probe: Option<String>,
    /// Whether to put it out of sight; what to log after that.
    pub hide: Option<String>,
}

/// Decides about a window by its class and its rectangle, where that can be told. The system's
/// volume display is put out of sight; windows that don't match are left alone.
pub fn try_yeet(class: &str, place: Option<Rect>) -> (r: WindowVerdict)
    requires
        host_class(class@) && place is Some ==> fits(place->0.right - place->0.left)
            && fits(place->0.bottom - place->0.top),
    ensures
        crate::text::opt_view(r.probe) == (if host_class(class@) && place is Some {
            Some(probe_text(class@, place->0))
        } else {
            None
        }),
        crate::text::opt_view(r.hide) == (if host_class(class@) && place is Some && pill_size(
            place->0.right - place->0.left,
            place->0.bottom - place->0.top,
        ) {
            Some(yeet_text(class@, place->0))
        } else {
            None
        }),
{
    if !is_host_class(class) {
        return WindowVerdict { probe: None, hide: None };
    }
    let p = match place {
        Some(p) => p,
        None => {
            return WindowVerdict { probe: None, hide: None };
        },
    };
    let h: i32 = p.bottom - p.top;
    let w: i32 = p.right - p.left;
    let mut probe = "[osd-probe] class=".to_owned();
    probe.append(class);
    probe.append(" size=");
    push_signed(&mut probe, w);
    probe.append("x");
    push_signed(&mut probe, h);
    probe.append(" pos=(");
    push_signed(&mut probe, p.left);
    probe.append(",");
    push_signed(&mut probe, p.top);
    probe.append(")");
    if h <= 20 || h >= 300 || w <= 100 || w >= 800 {
        return WindowVerdict { probe: Some(probe), hide: None };
    }
    let mut yeet = "[osd-yeet] class=".to_owned();
    yeet.append(class);
    yeet.append(" ");
    push_signed(&mut yeet, w);
    yeet.append("x");
    push_signed(&mut yeet, h);
    WindowVerdict { probe: Some(probe), hide: Some(yeet) }
}

/// The extended style to set so that the window is layered; none where it already is.
pub fn apply_invisible(style: i32) -> (r: Option<i32>)
    ensures
        r == (if style & WS_EX_LAYERED == 0 {
            Some(style | WS_EX_LAYERED)
        } else {
            None
        }),
{
    if (style & WS_EX_LAYERED) == 0 {
        Some(style | WS_EX_LAYERED)
    } else {
        None
    }
}

// ---------------------------------------------------------------- laws

/// Every volume of a fader can be painted.
pub proof fn volumes_are_paintable(value: int, max: int)
    requires
        0 <= value <= max <= 255,
    ensures
        paintable(value, max),
{
    if max > 0 {
        lemma_share_bounds(162, value, max);
    }
}

/// The percentage of a volume is between 0 and 100, and the bar is filled within its track; both
/// are full exactly at the maximum.
pub proof fn bar_stays_in_its_track(value: int, max: int)
    requires
        0 <= value <= max,
        max > 0,
    ensures
        0 <= share(100, value, max) <= 100,
        share(100, value, max) == 100 <==> value == max,
        0 <= share(bar_right() - bar_left(), value, max) <= bar_right() - bar_left(),
        share(bar_right() - bar_left(), value, max) == bar_right() - bar_left() <==> value == max,
{
    lemma_share_bounds(100, value, max);
    lemma_share_bounds(162, value, max);
}

/// A higher volume never shows less.
pub proof fn share_grows(whole: int, a: int, b: int, max: int)
    requires
        0 <= a <= b,
        0 <= whole,
        max > 0,
    ensures
        share(whole, a, max) <= share(whole, b, max),
{
    assert(0 <= whole * a <= whole * b) by (nonlinear_arith)
        requires
            0 <= a <= b,
            0 <= whole,
    ;
    vstd::arithmetic::div_mod::lemma_div_is_ordered(whole * a, whole * b, max);
}

/// A share of `whole` is no more than `whole`, and all of it only at the maximum.
proof fn lemma_share_bounds(whole: int, value: int, max: int)
    requires
        0 <= value <= max,
        max > 0,
        whole > 0,
    ensures
        0 <= share(whole, value, max) <= whole,
        share(whole, value, max) == whole <==> value == max,
{
    assert(0 <= whole * value <= whole * max) by (nonlinear_arith)
        requires
            0 <= value <= max,
            0 < whole,
    ;
    assert(whole * max / max == whole) by (nonlinear_arith)
        requires
            max > 0,
    ;
    vstd::arithmetic::div_mod::lemma_div_is_ordered(whole * value, whole * max, max);
    assert(0 <= whole * value / max) by (nonlinear_arith)
        requires
            0 <= whole * value,
            max > 0,
    ;
    if value < max {
        assert(whole * value < whole * max) by (nonlinear_arith)
            requires
                value < max,
                0 < whole,
        ;
        assert(whole * value / max < whole) by (nonlinear_arith)
            requires
                whole * value < whole * max,
                max > 0,
        ;
    }
}

/// Once a window is layered it is not made so again.
pub proof fn layering_is_done_once(style: i32)
    ensures
        (style | WS_EX_LAYERED) & WS_EX_LAYERED != 0,
{
    assert((style | 0x0008_0000i32) & 0x0008_0000i32 != 0) by (bit_vector);
}

// ---------------------------------------------------------------- what is drawn

/// A share is the largest number that is not beyond it: times the maximum it falls short of the
/// value times the whole by less than the maximum.
pub proof fn share_is_rounded_towards_zero(whole: int, value: int, max: int)
    ensures
        max <= 0 ==> share(whole, value, max) == 0,
        max > 0 && whole * value >= 0 ==> 0 <= whole * value - share(whole, value, max) * max < max,
        max > 0 && whole * value <= 0 ==> 0 <= share(whole, value, max) * max - whole * value < max,
{
    if max > 0 {
        crate::draw::quotient_falls_short_by_less_than_the_divisor(whole * value, max);
    }
}

/// What the display draws, by place: the background, the name to the left, the percentage to the
/// right, the track between them, and over its beginning the filled part where there is any.
pub proof fn display_is_laid_out(channel: Seq<char>, value: int, max: int)
    ensures
        ({
            let ops = osd_ops(channel, value, max);
            let filled = share(162, value, max);
            &&& ops.len() == (if filled > 0 {
                5int
            } else {
                4
            })
            &&& ops[0] == (OpView::Fill {
                rect: Rect { left: 0, top: 0, right: 380, bottom: 64 },
                color: 0x1F1F1F,
            })
            &&& ops[1] == (OpView::Text {
                text: channel,
                font: Font::Osd,
                color: 0xFFFFFF,
                rect: Rect { left: 18, top: 0, right: 128, bottom: 64 },
                layout: Layout::Left,
            })
            &&& ops[2] == (OpView::Text {
                text: signed_decimal(share(100, value, max)),
                font: Font::Osd,
                color: 0xFFFFFF,
                rect: Rect { left: 314, top: 0, right: 362, bottom: 64 },
                layout: Layout::Right,
            })
            &&& ops[3] == (OpView::Fill {
                rect: Rect { left: 140, top: 29, right: 302, bottom: 35 },
                color: 0x3C3C3C,
            })
            &&& filled > 0 ==> ops[4] == (OpView::Fill {
                rect: Rect { left: 140, top: 29, right: (140 + filled) as i32, bottom: 35 },
                color: 0x339CFB,
            })
        }),
{
}

/// What can be painted is what stays within 32 bits on the way, as all values up to ten million do.
pub proof fn paintable_is_a_matter_of_size(value: int, max: int)
    ensures
        paintable(value, max) <==> max <= 0 || {
            &&& -2147483648 <= 100 * value <= 2147483647
            &&& -2147483648 <= 162 * value <= 2147483647
            &&& -2147483648 <= 140 + share(162, value, max) <= 2147483647
        },
        -10000000 <= value <= 10000000 ==> paintable(value, max),
{
    if max > 0 && -10000000 <= value <= 10000000 {
        share_is_rounded_towards_zero(162, value, max);
        let s = share(162, value, max);
        assert(-1620000000 <= s <= 1620000000) by (nonlinear_arith)
            requires
                max > 0,
                -10000000 <= value <= 10000000,
                162 * value >= 0 ==> 0 <= 162 * value - s * max < max,
                162 * value <= 0 ==> 0 <= s * max - 162 * value < max,
        ;
    }
}

/// The windows that may be the system's display, by class, and the sizes that it can have.
pub proof fn system_display_is_known_by_class_and_size(class: Seq<char>, w: int, h: int)
    ensures
        host_class(class) <==> seq![
            "NativeHWNDHost"@,
            "XamlExplorerHostIslandWindow"@,
            "Windows.UI.Core.CoreWindow"@,
        ].contains(class),
        pill_size(w, h) <==> 101 <= w <= 799 && 21 <= h <= 299,
{
    let known = seq![
        "NativeHWNDHost"@,
        "XamlExplorerHostIslandWindow"@,
        "Windows.UI.Core.CoreWindow"@,
    ];
    if host_class(class) {
        assert(known[0] == class || known[1] == class || known[2] == class);
    }
}

/// The log lines name the class, then width and height, and the probe the place behind them.
pub proof fn log_lines_name_class_and_size(class: Seq<char>, r: Rect)
    ensures
        ({
            let size = signed_decimal(r.right - r.left) + "x"@ + signed_decimal(r.bottom - r.top);
            let place = "("@ + signed_decimal(r.left as int) + ","@ + signed_decimal(r.top as int)
                + ")"@;
            &&& probe_text(class, r) == "[osd-probe] class="@ + class + " size="@ + size + " pos="@
                + place
            &&& yeet_text(class, r) == "[osd-yeet] class="@ + class + " "@ + size
        }),
{
    reveal_strlit(" pos=(");
    reveal_strlit(" pos=");
    reveal_strlit("(");
    let w = signed_decimal(r.right - r.left);
    let h = signed_decimal(r.bottom - r.top);
    let x = signed_decimal(r.left as int);
    let y = signed_decimal(r.top as int);
    assert(" pos=("@ =~= " pos="@ + "("@);
    let size = w + "x"@ + h;
    let place = "("@ + x + ","@ + y + ")"@;
    assert(probe_text(class, r) =~= "[osd-probe] class="@ + class + " size="@ + size + " pos="@
        + place);
    assert(yeet_text(class, r) =~= "[osd-yeet] class="@ + class + " "@ + size);
}

/// The numbers that are shared with Windows, and the display's measures.
pub proof fn display_numbers()
    ensures
        OSD_WIDTH == 380,
        OSD_HEIGHT == 64,
        OSD_RADIUS == 14,
        HIDE_TIMER_ID == 1,
        HIDE_TIMER_MS == 1500,
        SUPPRESS_TIMER_ID == 2,
        SUPPRESS_TIMER_MS == 1000,
        WM_PAINT == 15,
        WM_TIMER == 275,
        WM_OSD_UPDATE == 0x8000 + 10,
        EVENT_OBJECT_SHOW == 0x8002,
        OBJID_WINDOW == 0,
        FIRST_WIN11_BUILD == 22000,
        WS_EX_LAYERED == 524288,
        OFF_SCREEN == -32000,
{
}

} // verus!
