//! Tray menu commands and the tray icon bitmap.

use vstd::prelude::*;

verus! {

/// What a tray menu entry or tray click asks the app to do.
#[derive(Debug, Clone, Copy, PartialEq, Eq, Structural)]
pub enum TrayCommand {
    Show,
    StartOrStop,
    Reroll,
    StopSession,
    Exit,
}

/// Side of the square tray icon, in pixels.
pub const TRAY_ICON_SIZE: u32 = 32;

/// Colour of pixel `(x, y)` of the tray icon: warm paper background, a dark
/// ink square, and a paper-coloured bar across the square.
pub open spec fn tray_pixel(x: int, y: int) -> (u8, u8, u8, u8) {
    if 10 <= x < 22 && 14 <= y < 18 {
        (0xF7, 0xF3, 0xEC, 0xFF)
    } else if 8 <= x < 24 && 8 <= y < 24 {
        (0x1C, 0x19, 0x17, 0xFF)
    } else {
        (0xF7, 0xF3, 0xEC, 0xFF)
    }
}

/// RGBA bytes of the 32x32 tray icon, row by row.
pub fn tray_icon_rgba() -> (px: Vec<u8>)
    ensures
        px@.len() == 32 * 32 * 4,
        forall|x: int, y: int|
            0 <= x < 32 && 0 <= y < 32 ==> (#[trigger] px@[(y * 32 + x) * 4], px@[(y * 32 + x) * 4
                + 1], px@[(y * 32 + x) * 4 + 2], px@[(y * 32 + x) * 4 + 3]) == tray_pixel(x, y),
{
    let mut px: Vec<u8> = Vec::new();
    let mut y: u32 = 0;
    while y < 32
        invariant
            0 <= y <= 32,
            px@.len() == y * 128,
            forall|x: int, yy: int|
                0 <= x < 32 && 0 <= yy < y ==> (#[trigger] px@[(yy * 32 + x) * 4], px@[(yy * 32
                    + x) * 4 + 1], px@[(yy * 32 + x) * 4 + 2], px@[(yy * 32 + x) * 4 + 3])
                    == tray_pixel(x, yy),
        decreases 32 - y,
    {
        let mut x: u32 = 0;
        while x < 32
            invariant
                0 <= x <= 32,
                0 <= y < 32,
                px@.len() == y * 128 + x * 4,
                forall|xx: int, yy: int|
                    (0 <= xx < 32 && 0 <= yy < y) || (0 <= xx < x && yy == y) ==> (
                    #[trigger] px@[(yy * 32 + xx) * 4], px@[(yy * 32 + xx) * 4 + 1], px@[(yy * 32
                        + xx) * 4 + 2], px@[(yy * 32 + xx) * 4 + 3]) == tray_pixel(xx, yy),
            decreases 32 - x,
        {
            let ink = x >= 8 && x < 24 && y >= 8 && y < 24;
            let bar = x >= 10 && x < 22 && y >= 14 && y < 18;
            let (r, g, b) = if ink && !bar {
                (0x1Cu8, 0x19u8, 0x17u8)
            } else {
                (0xF7u8, 0xF3u8, 0xECu8)
            };
            let ghost base = px@.len();
            assert(base == (y * 32 + x) * 4) by (nonlinear_arith)
                requires
                    base == y * 128 + x * 4,
            ;
            px.push(r);
            px.push(g);
            px.push(b);
            px.push(0xFF);
            assert forall|xx: int, yy: int|
                (0 <= xx < 32 && 0 <= yy < y) || (0 <= xx < x + 1 && yy == y) implies (
                #[trigger] px@[(yy * 32 + xx) * 4], px@[(yy * 32 + xx) * 4 + 1], px@[(yy * 32 + xx)
                    * 4 + 2], px@[(yy * 32 + xx) * 4 + 3]) == tray_pixel(xx, yy) by {
                if yy == y && xx == x {
                } else {
                    assert((yy * 32 + xx) * 4 + 3 < base) by (nonlinear_arith)
                        requires
                            (0 <= xx < 32 && 0 <= yy < y) || (0 <= xx < x && yy == y),
                            base == (y * 32 + x) * 4,
                    ;
                }
            }
            x = x + 1;
        }
        y = y + 1;
    }
    px
}

} // verus!
