//! What the windows show, as a list of drawing operations.

use vstd::prelude::*;

verus! {

/// A rectangle; the right and bottom edges are outside of it.
#[derive(Clone, Copy, Debug, PartialEq, Eq, Structural)]
pub struct Rect {
    pub left: i32,
    pub top: i32,
    pub right: i32,
    pub bottom: i32,
}

/// The rectangle with these edges.
pub open spec fn rect(left: int, top: int, right: int, bottom: int) -> Rect {
    Rect { left: left as i32, top: top as i32, right: right as i32, bottom: bottom as i32 }
}

/// Whether the point lies in the rectangle.
pub open spec fn within(r: Rect, x: int, y: int) -> bool {
    r.left <= x < r.right && r.top <= y < r.bottom
}

/// Whether the point lies in the rectangle.
pub fn in_rect(r: &Rect, x: i32, y: i32) -> (inside: bool)
    ensures
        inside == within(*r, x as int, y as int),
{
    x >= r.left && x < r.right && y >= r.top && y < r.bottom
}

/// Whether a number is an `i32`.
pub open spec fn fits(n: int) -> bool {
    i32::MIN <= n <= i32::MAX
}

/// `a / b` rounded towards zero.
pub open spec fn quotient(a: int, b: int) -> int
    recommends
        b > 0,
{
    if a >= 0 {
        a / b
    } else {
        -((-a) / b)
    }
}

/// `a / b` rounded towards zero.
pub fn divide(a: i32, b: i32) -> (r: i32)
    requires
        b > 0,
    ensures
        r == quotient(a as int, b as int),
{
    a / b
}

/// The fonts in use.
#[derive(Clone, Copy, Debug, PartialEq, Eq, Structural)]
pub enum Font {
    Header,
    Body,
    Strong,
    Name,
    NameStrong,
    /// System icon font.
    Icon,
    /// Larger variant of the icon font for the help cards.
    IconLarge,
    Title,
    /// The on-screen display.
    Osd,
}

/// How text stands in its rectangle.
#[derive(Clone, Copy, Debug, PartialEq, Eq, Structural)]
pub enum Layout {
    /// One line, to the left, centred vertically.
    Left,
    /// One line, centred.
    Center,
    /// One line, to the right, centred vertically.
    Right,
    /// From the top left, wrapped between words.
    Wrapped,
}

/// One step of drawing. Colours are `0x00BBGGRR`.
#[derive(Debug, PartialEq, Eq)]
pub enum DrawOp {
    /// A filled rectangle.
    Fill { rect: Rect, color: u32 },
    /// A filled rectangle with a border one pixel wide and rounded corners; `corner` is the
    /// diameter of the corners.
    Round { rect: Rect, fill: u32, border: u32, corner: i32 },
    /// A filled ellipse.
    Disc { rect: Rect, color: u32 },
    /// Text.
    Text { text: String, font: Font, color: u32, rect: Rect, layout: Layout },
}

/// What a [`DrawOp`] draws.
#[verifier::ext_equal]
pub enum OpView {
    Fill { rect: Rect, color: u32 },
    Round { rect: Rect, fill: u32, border: u32, corner: i32 },
    Disc { rect: Rect, color: u32 },
    Text { text: Seq<char>, font: Font, color: u32, rect: Rect, layout: Layout },
}

impl View for DrawOp {
    type V = OpView;

    open spec fn view(&self) -> OpView {
        match *self {
            DrawOp::Fill { rect, color } => OpView::Fill { rect, color },
            DrawOp::Round { rect, fill, border, corner } => OpView::Round {
                rect,
                fill,
                border,
                corner,
            },
            DrawOp::Disc { rect, color } => OpView::Disc { rect, color },
            DrawOp::Text { text, font, color, rect, layout } => OpView::Text {
                text: text@,
                font,
                color,
                rect,
                layout,
            },
        }
    }
}

/// What a list of operations draws.
pub open spec fn op_views(ops: Seq<DrawOp>) -> Seq<OpView> {
    ops.map_values(|op: DrawOp| op@)
}

/// Adds an operation.
pub fn emit(ops: &mut Vec<DrawOp>, op: DrawOp)
    ensures
        op_views(final(ops)@) == op_views(old(ops)@).push(op@),
{
    ops.push(op);
    assert(op_views(ops@) =~= op_views(old(ops)@).push(op@));
}

/// Adds text.
pub fn emit_text(
    ops: &mut Vec<DrawOp>,
    text: &str,
    font: Font,
    color: u32,
    rect: Rect,
    layout: Layout,
)
    ensures
        op_views(final(ops)@) == op_views(old(ops)@).push(
            OpView::Text { text: text@, font, color, rect, layout },
        ),
{
    emit(ops, DrawOp::Text { text: text.to_owned(), font, color, rect, layout });
}

/// Adds a rounded rectangle with corners of the given radius.
pub fn fill_round(ops: &mut Vec<DrawOp>, rect: Rect, fill: u32, border: u32, radius: i32)
    requires
        fits(radius * 2),
    ensures
        op_views(final(ops)@) == op_views(old(ops)@).push(round(rect, fill, border, radius as int)),
{
    emit(ops, DrawOp::Round { rect, fill, border, corner: radius * 2 });
}

/// A rounded rectangle with corners of the given radius.
pub open spec fn round(rect: Rect, fill: u32, border: u32, radius: int) -> OpView {
    OpView::Round { rect, fill, border, corner: (radius * 2) as i32 }
}

/// Text.
pub open spec fn label(
    text: Seq<char>,
    font: Font,
    color: u32,
    rect: Rect,
    layout: Layout,
) -> OpView {
    OpView::Text { text, font, color, rect, layout }
}

/// Face of the text fonts.
pub const FACE_TEXT: &'static str = "Segoe UI";

/// Face of the icon fonts.
pub const FACE_ICONS: &'static str = "Segoe MDL2 Assets";

/// How a font is made.
#[derive(Clone, Copy, Debug, PartialEq, Eq, Structural)]
pub struct FontSpec {
    /// Height of the characters in pixels.
    pub pixels: i32,
    pub semibold: bool,
    /// Whether the face is the icon face.
    pub icons: bool,
}

/// How each font is made.
pub open spec fn spec_of_font(font: Font) -> FontSpec {
    match font {
        Font::Header => FontSpec { pixels: 11, semibold: true, icons: false },
        Font::Body => FontSpec { pixels: 13, semibold: false, icons: false },
        Font::Strong => FontSpec { pixels: 13, semibold: true, icons: false },
        Font::Name => FontSpec { pixels: 14, semibold: false, icons: false },
        Font::NameStrong => FontSpec { pixels: 15, semibold: true, icons: false },
        Font::Icon => FontSpec { pixels: 15, semibold: false, icons: true },
        Font::IconLarge => FontSpec { pixels: 22, semibold: false, icons: true },
        Font::Title => FontSpec { pixels: 24, semibold: true, icons: false },
        Font::Osd => FontSpec { pixels: 16, semibold: true, icons: false },
    }
}

/// How a font is made.
pub fn make_font(font: Font) -> (r: FontSpec)
    ensures
        r == spec_of_font(font),
{
    match font {
        Font::Header => FontSpec { pixels: 11, semibold: true, icons: false },
        Font::Body => FontSpec { pixels: 13, semibold: false, icons: false },
        Font::Strong => FontSpec { pixels: 13, semibold: true, icons: false },
        Font::Name => FontSpec { pixels: 14, semibold: false, icons: false },
        Font::NameStrong => FontSpec { pixels: 15, semibold: true, icons: false },
        Font::Icon => FontSpec { pixels: 15, semibold: false, icons: true },
        Font::IconLarge => FontSpec { pixels: 22, semibold: false, icons: true },
        Font::Title => FontSpec { pixels: 24, semibold: true, icons: false },
        Font::Osd => FontSpec { pixels: 16, semibold: true, icons: false },
    }
}

// ---------------------------------------------------------------- laws

/// A rectangle holds the points from its left and top edges up to, and without, its right and
/// bottom edges.
pub proof fn rectangle_ends_before_its_far_edges(r: Rect, x: int, y: int)
    ensures
        within(r, x, y) <==> r.left <= x && x < r.right && r.top <= y && y < r.bottom,
        !within(r, r.right as int, y),
        !within(r, x, r.bottom as int),
        r.left < r.right && r.top < r.bottom ==> within(r, r.left as int, r.top as int) && within(
            r,
            r.right - 1,
            r.bottom - 1,
        ),
{
}

/// The rectangle with given edges has those edges.
pub proof fn rectangle_has_its_edges(left: i32, top: i32, right: i32, bottom: i32)
    ensures
        rect(left as int, top as int, right as int, bottom as int).left == left,
        rect(left as int, top as int, right as int, bottom as int).top == top,
        rect(left as int, top as int, right as int, bottom as int).right == right,
        rect(left as int, top as int, right as int, bottom as int).bottom == bottom,
{
}

/// What fits is what an `i32` can hold.
pub proof fn numbers_fit_in_32_bits(n: int)
    ensures
        fits(n) <==> -2147483648 <= n <= 2147483647,
{
}

/// A quotient times the divisor is the dividend but for less than a divisor, and never beyond it.
pub proof fn quotient_falls_short_by_less_than_the_divisor(a: int, b: int)
    requires
        b > 0,
    ensures
        a >= 0 ==> 0 <= a - quotient(a, b) * b < b,
        a <= 0 ==> 0 <= quotient(a, b) * b - a < b,
        quotient(-a, b) == -quotient(a, b),
{
    if a >= 0 {
        vstd::arithmetic::div_mod::lemma_fundamental_div_mod(a, b);
        vstd::arithmetic::div_mod::lemma_mod_bound(a, b);
        assert(b * (a / b) == (a / b) * b) by (nonlinear_arith);
    }
    if a <= 0 {
        let n = -a;
        vstd::arithmetic::div_mod::lemma_fundamental_div_mod(n, b);
        vstd::arithmetic::div_mod::lemma_mod_bound(n, b);
        assert(b * (n / b) == (n / b) * b) by (nonlinear_arith);
        assert(-((n / b) * b) == (-(n / b)) * b) by (nonlinear_arith);
        if a == 0 {
            assert(0int / b == 0) by (nonlinear_arith)
                requires
                    b > 0,
            ;
        }
    }
}

/// The view of a list of operations keeps every operation, in its place and with all that it holds.
pub proof fn operations_are_seen_as_they_are(ops: Seq<DrawOp>, k: int)
    requires
        0 <= k < ops.len(),
    ensures
        op_views(ops).len() == ops.len(),
        match ops[k] {
            DrawOp::Fill { rect, color } => op_views(ops)[k] == (OpView::Fill { rect, color }),
            DrawOp::Round { rect, fill, border, corner } => op_views(ops)[k] == (OpView::Round {
                rect,
                fill,
                border,
                corner,
            }),
            DrawOp::Disc { rect, color } => op_views(ops)[k] == (OpView::Disc { rect, color }),
            DrawOp::Text { text, font, color, rect, layout } => op_views(ops)[k] == (OpView::Text {
                text: text@,
                font,
                color,
                rect,
                layout,
            }),
        },
{
}

/// A rounded rectangle is drawn with the diameter of its corners, twice their radius, and text
/// with all that was given.
pub proof fn operations_hold_what_was_given(
    r: Rect,
    fill: u32,
    border: u32,
    radius: i32,
    text: Seq<char>,
    font: Font,
    layout: Layout,
)
    ensures
        ({
            let op = round(r, fill, border, radius as int);
            &&& op is Round && op->Round_rect == r && op->fill == fill && op->border == border
            &&& op->corner == (radius + radius) as i32
        }),
        ({
            let op = label(text, font, fill, r, layout);
            &&& op is Text && op->text == text && op->font == font && op->Text_color == fill
            &&& op->Text_rect == r && op->layout == layout
        }),
{
}

/// Each font by its size, weight and face: the icon face is that of the two icon fonts alone, and
/// everything else is semibold but the plain text, the plain name and the icons.
pub proof fn fonts_are_as_listed(font: Font)
    ensures
        spec_of_font(font).icons <==> font == Font::Icon || font == Font::IconLarge,
        spec_of_font(font).semibold <==> font == Font::Header || font == Font::Strong || font
            == Font::NameStrong || font == Font::Title || font == Font::Osd,
        spec_of_font(Font::Header).pixels == 11,
        spec_of_font(Font::Body).pixels == 13,
        spec_of_font(Font::Strong).pixels == 13,
        spec_of_font(Font::Name).pixels == 14,
        spec_of_font(Font::NameStrong).pixels == 15,
        spec_of_font(Font::Icon).pixels == 15,
        spec_of_font(Font::IconLarge).pixels == 22,
        spec_of_font(Font::Title).pixels == 24,
        spec_of_font(Font::Osd).pixels == 16,
        FACE_TEXT@ == "Segoe UI"@,
        FACE_ICONS@ == "Segoe MDL2 Assets"@,
{
}

} // verus!
