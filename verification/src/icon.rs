//! The tray icon: a filled disc on a transparent square.

use vstd::prelude::*;
use crate::raster::pixel_of;

verus! {

/// Side of the tray icon in pixels.
pub const ICON_SIDE: u32 = 32;

/// Whether pixel `(x, y)` lies in the icon's disc: its centre `(x + 0.5,
/// y + 0.5)` is closer than 14 to the middle `(16, 16)`. Doubled, this is
/// `(2x - 31)² + (2y - 31)² < 28²`, exactly what `f32` computes from
/// `(x - 15.5)² + (y - 15.5)² < 14²` for these small half-integers.
pub open spec fn in_disc(x: int, y: int) -> bool {
    (2 * x - 31) * (2 * x - 31) + (2 * y - 31) * (2 * y - 31) < 784
}

/// Colour of pixel `(x, y)` of the icon, RGBA: light blue in the disc,
/// transparent around it.
pub open spec fn icon_pixel(x: int, y: int) -> (u8, u8, u8, u8) {
    if in_disc(x, y) {
        (0x6e, 0xc6, 0xff, 0xff)
    } else {
        (0, 0, 0, 0)
    }
}

/// The RGBA bytes of the tray icon, row after row.
pub fn tray_icon_rgba() -> (rgba: Vec<u8>)
    ensures
        rgba@.len() == 4 * 32 * 32,
        forall|i: int| 0 <= i < 32 * 32 ==> #[trigger] pixel_of(rgba@, i) == icon_pixel(i % 32, i / 32),
{
    let mut rgba: Vec<u8> = Vec::with_capacity(4 * 32 * 32);
    let mut y: u32 = 0;
    while y < ICON_SIDE
        invariant
            y <= 32,
            rgba@.len() == 4 * 32 * y,
            forall|i: int| 0 <= i < 32 * y ==> #[trigger] pixel_of(rgba@, i) == icon_pixel(i % 32, i / 32),
        decreases 32 - y,
    {
        let mut x: u32 = 0;
        assert(rgba@.len() == 4 * 32 * y);
        assert(x == 0);
        assert(4 * 32 * y == 4 * (32 * y + x)) by (nonlinear_arith) requires x == 0;
        while x < ICON_SIDE
            invariant
                y < 32,
                x <= 32,
                rgba@.len() == 4 * (32 * y + x),
                forall|i: int| 0 <= i < 32 * y + x ==> #[trigger] pixel_of(rgba@, i) == icon_pixel(i % 32, i / 32),
            decreases 32 - x,
        {
            let dx: i32 = 2 * (x as i32) - 31;
            let dy: i32 = 2 * (y as i32) - 31;
            assert(dx * dx <= 1089 && dy * dy <= 1089) by (nonlinear_arith)
                requires -31 <= dx <= 33, -31 <= dy <= 33;
            assert(dx * dx >= 0 && dy * dy >= 0) by (nonlinear_arith);
            let inside = dx * dx + dy * dy < 784;
            let ghost before = rgba@;
            if inside {
                rgba.push(0x6e);
                rgba.push(0xc6);
                rgba.push(0xff);
                rgba.push(0xff);
            } else {
                rgba.push(0);
                rgba.push(0);
                rgba.push(0);
                rgba.push(0);
            }
            proof {
                let k = 32 * y + x;
                assert(k % 32 == x && k / 32 == y) by {
                    vstd::arithmetic::div_mod::lemma_fundamental_div_mod_converse(k as int, 32, y as int, x as int);
                }
                assert forall|i: int| 0 <= i < k + 1 implies #[trigger] pixel_of(rgba@, i) == icon_pixel(i % 32, i / 32) by {
                    if i < k {
                        assert(pixel_of(before, i) == pixel_of(rgba@, i));
                    }
                }
            }
            x = x + 1;
        }
        y = y + 1;
    }
    rgba
}


/// The icon is a disc around the middle of the square: each pixel is light
/// blue or transparent, the picture is the same mirrored left-right, top-down
/// and across the diagonal, and a pixel is in the disc exactly when its centre
/// lies closer than 14 pixels to the middle point (16, 16).
pub proof fn icon_is_a_disc(x: int, y: int)
    requires
        0 <= x < 32,
        0 <= y < 32,
    ensures
        icon_pixel(x, y) == (0x6eu8, 0xc6u8, 0xffu8, 0xffu8) || icon_pixel(x, y) == (0u8, 0u8, 0u8, 0u8),
        icon_pixel(x, y) == icon_pixel(31 - x, y),
        icon_pixel(x, y) == icon_pixel(x, 31 - y),
        icon_pixel(x, y) == icon_pixel(y, x),
        in_disc(x, y) == ((2 * x + 1 - 32) * (2 * x + 1 - 32) + (2 * y + 1 - 32) * (2 * y + 1 - 32) < 4 * 14 * 14),
        (icon_pixel(x, y) == (0x6eu8, 0xc6u8, 0xffu8, 0xffu8)) == in_disc(x, y),
{
    assert((2 * (31 - x) - 31) * (2 * (31 - x) - 31) == (2 * x - 31) * (2 * x - 31)) by (nonlinear_arith);
    assert((2 * (31 - y) - 31) * (2 * (31 - y) - 31) == (2 * y - 31) * (2 * y - 31)) by (nonlinear_arith);
}

} // verus!
