//! The tray icon, drawn programmatically.

use vstd::prelude::*;

verus! {

/// Width and height of the icon in pixels.
pub const ICON_SIZE: i32 = 32;

/// Tray brand colour when the daemon is connected.
pub const COLOR_CONNECTED: [u8; 4] = [0xFB, 0x9C, 0x33, 0xFF];

/// Muted grey when the daemon is unreachable, so the user notices at a glance.
pub const COLOR_DISCONNECTED: [u8; 4] = [0x80, 0x80, 0x80, 0xFF];

/// Whether the pixel belongs to the speaker: a box, a cone that widens to the right, and three
/// sound waves.
pub open spec fn speaker(x: int, y: int) -> bool {
    ||| 4 <= x < 11 && 12 <= y < 21
    ||| 11 <= x < 18 && 21 - x <= y < 11 + x
    ||| x == 20 && 13 <= y <= 19
    ||| x == 23 && 11 <= y <= 21
    ||| x == 26 && 9 <= y <= 23
}

/// Byte `k` of the icon, in rows of 32 pixels of 4 bytes: the colour inside the speaker,
/// transparent elsewhere.
pub open spec fn icon_byte(color: Seq<u8>, k: int) -> u8 {
    if speaker(k / 4 % 32, k / 128) {
        color[k % 4]
    } else {
        0
    }
}

/// Writes one pixel of an `n` by `n` image; a place outside of it is left alone.
pub fn put(rgba: &mut Vec<u8>, n: i32, x: i32, y: i32, color: &[u8; 4])
    requires
        0 <= x < n && 0 <= y < n ==> (y * n + x) * 4 <= i32::MAX && (y * n + x) * 4 + 4 <= old(
            rgba,
        )@.len(),
    ensures
        final(rgba)@ == (if 0 <= x < n && 0 <= y < n {
            let i = (y * n + x) * 4;
            Seq::new(
                old(rgba)@.len(),
                |k: int|
                    if i <= k < i + 4 {
                        color@[k - i]
                    } else {
                        old(rgba)@[k]
                    },
            )
        } else {
            old(rgba)@
        }),
{
    if 0 <= x && x < n && 0 <= y && y < n {
        assert(0 <= y * n) by (nonlinear_arith)
            requires
                0 <= y,
                0 <= n,
        ;
        let i: usize = ((y * n + x) * 4) as usize;
        rgba.set(i, color[0]);
        rgba.set(i + 1, color[1]);
        rgba.set(i + 2, color[2]);
        rgba.set(i + 3, color[3]);
        let ghost at = (y * n + x) * 4;
        assert(rgba@ =~= Seq::new(
            old(rgba)@.len(),
            |k: int|
                if at <= k < at + 4 {
                    color@[k - at]
                } else {
                    old(rgba)@[k]
                },
        ));
    }
}

/// Whether the image shows `color` exactly where `shape` holds, and nothing elsewhere.
spec fn shows(rgba: Seq<u8>, color: Seq<u8>, shape: spec_fn(int, int) -> bool) -> bool {
    &&& rgba.len() == 4096
    &&& forall|k: int|
        0 <= k < 4096 ==> #[trigger] rgba[k] == (if shape(k / 4 % 32, k / 128) {
            color[k % 4]
        } else {
            0u8
        })
}

/// The column from `from` up to `to` at `x` is painted.
fn column(
    rgba: &mut Vec<u8>,
    x: i32,
    from: i32,
    to: i32,
    color: &[u8; 4],
    Ghost(shape): Ghost<spec_fn(int, int) -> bool>,
)
    requires
        0 <= x < 32,
        0 <= from <= to <= 32,
        shows(old(rgba)@, color@, shape),
    ensures
        shows(
            final(rgba)@,
            color@,
            |px: int, py: int| shape(px, py) || (px == x && from <= py < to),
        ),
{
    let mut y: i32 = from;
    while y < to
        invariant
            0 <= x < 32,
            0 <= from <= y <= to <= 32,
            shows(rgba@, color@, |px: int, py: int| shape(px, py) || (px == x && from <= py < y)),
        decreases to - y,
    {
        let ghost before = rgba@;
        put(rgba, ICON_SIZE, x, y, color);
        y = y + 1;
        let ghost now = |px: int, py: int| shape(px, py) || (px == x && from <= py < y);
        assert forall|k: int| 0 <= k < 4096 implies #[trigger] rgba@[k] == (if now(
            k / 4 % 32,
            k / 128,
        ) {
            color@[k % 4]
        } else {
            0u8
        }) by {
            let i = ((y - 1) * 32 + x) * 4;
            assert(before[k] == before[k]);
            if i <= k < i + 4 {
                assert(k / 4 % 32 == x && k / 128 == y - 1);
                assert(k - i == k % 4);
            } else {
                assert(!(k / 4 % 32 == x && k / 128 == y - 1));
            }
        }
    }
}

/// 32×32 RGBA speaker icon.
pub fn build_icon(color: &[u8; 4]) -> (r: Vec<u8>)
    ensures
        r@ == Seq::new(4096, |k: int| icon_byte(color@, k)),
{
    let mut rgba: Vec<u8> = vec![0u8; 4096];
    // Speaker box
    let ghost mut shape: spec_fn(int, int) -> bool = |px: int, py: int| false;
    let mut x: i32 = 4;
    while x < 11
        invariant
            4 <= x <= 11,
            shows(rgba@, color@, shape),
            shape =~= (|px: int, py: int| 4 <= px < x && 12 <= py < 21),
        decreases 11 - x,
    {
        column(&mut rgba, x, 12, 21, color, Ghost(shape));
        proof {
            shape = |px: int, py: int| shape(px, py) || (px == x && 12 <= py < 21);
        }
        x = x + 1;
    }
    // Trapezoidal cone
    while x < 18
        invariant
            11 <= x <= 18,
            shows(rgba@, color@, shape),
            shape =~= (|px: int, py: int|
                (4 <= px < 11 && 12 <= py < 21) || (11 <= px < x && 21 - px <= py < 11 + px)),
        decreases 18 - x,
    {
        let h: i32 = x - 11;
        column(&mut rgba, x, 10 - h, 22 + h, color, Ghost(shape));
        proof {
            shape = |px: int, py: int| shape(px, py) || (px == x && 10 - h <= py < 22 + h);
        }
        x = x + 1;
    }
    // Sound waves
    column(&mut rgba, 20, 13, 20, color, Ghost(shape));
    proof {
        shape = |px: int, py: int| shape(px, py) || (px == 20 && 13 <= py < 20);
    }
    column(&mut rgba, 23, 11, 22, color, Ghost(shape));
    proof {
        shape = |px: int, py: int| shape(px, py) || (px == 23 && 11 <= py < 22);
    }
    column(&mut rgba, 26, 9, 24, color, Ghost(shape));
    proof {
        shape = |px: int, py: int| shape(px, py) || (px == 26 && 9 <= py < 24);
        assert(shape =~= (|px: int, py: int| speaker(px, py)));
    }
    assert(rgba@ =~= Seq::new(4096, |k: int| icon_byte(color@, k)));
    rgba
}

// ---------------------------------------------------------------- laws

/// The icon pixel by pixel: a row is 128 bytes and a pixel 4 of them, and a pixel has the whole
/// colour or is transparent.
pub proof fn pixels_are_whole(color: Seq<u8>, x: int, y: int, part: int)
    requires
        0 <= x < 32,
        0 <= y < 32,
        0 <= part < 4,
        color.len() == 4,
    ensures
        icon_byte(color, y * 128 + x * 4 + part) == (if speaker(x, y) {
            color[part]
        } else {
            0u8
        }),
{
    let k = y * 128 + x * 4 + part;
    assert(k / 128 == y);
    assert(k / 4 % 32 == x);
    assert(k % 4 == part);
}

/// The rows of the speaker, column by column.
pub proof fn speaker_by_columns(x: int, y: int)
    ensures
        speaker(x, y) <==> {
            ||| (x == 4 || x == 5 || x == 6 || x == 7 || x == 8 || x == 9 || x == 10) && 12 <= y
                <= 20
            ||| x == 11 && 10 <= y <= 21
            ||| x == 12 && 9 <= y <= 22
            ||| x == 13 && 8 <= y <= 23
            ||| x == 14 && 7 <= y <= 24
            ||| x == 15 && 6 <= y <= 25
            ||| x == 16 && 5 <= y <= 26
            ||| x == 17 && 4 <= y <= 27
            ||| x == 20 && 13 <= y <= 19
            ||| x == 23 && 11 <= y <= 21
            ||| x == 26 && 9 <= y <= 23
        },
{
}

/// The colours of the icon: orange while connected, grey while not, both opaque.
pub proof fn icon_colors()
    ensures
        COLOR_CONNECTED@ == seq![251u8, 156, 51, 255],
        COLOR_DISCONNECTED@ == seq![128u8, 128, 128, 255],
        ICON_SIZE == 32,
{
    assert(COLOR_CONNECTED@ =~= seq![251u8, 156, 51, 255]);
    assert(COLOR_DISCONNECTED@ =~= seq![128u8, 128, 128, 255]);
}

} // verus!
