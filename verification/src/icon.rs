//! The application icon's transparency: the camera is drawn on a pure-red
//! key colour, which becomes transparent.
use vstd::prelude::*;

verus! {

/// Side of the application icon, in pixels.
pub const APP_ICON_SIZE: i32 = 32;
/// Camera colour (COLORREF #3366CC).
pub const CAMERA_BLUE: u32 = 0x00CC_6633;
/// Background key colour (COLORREF pure red).
pub const KEY_RED: u32 = 0x0000_00FF;

/// Alpha of a BGRA pixel after keying: 0 for pure red (B=0, G=0, R=255),
/// 255 for everything else.
pub open spec fn keyed_alpha(b: u8, g: u8, r: u8) -> u8 {
    if r == 255 && g == 0 && b == 0 { 0 } else { 255 }
}

/// Sets the alpha byte of every whole BGRA pixel from the colour key; the
/// colour bytes, and any trailing partial pixel, stay as they were.
pub fn apply_color_key(pixels: &mut Vec<u8>)
    ensures
        final(pixels)@.len() == old(pixels)@.len(),
        forall|j: int|
            0 <= j < old(pixels)@.len() ==> #[trigger] final(pixels)@[j] == (if j % 4 == 3 && j / 4 < old(
                pixels,
            )@.len() / 4 {
                keyed_alpha(old(pixels)@[j - 3], old(pixels)@[j - 2], old(pixels)@[j - 1])
            } else {
                old(pixels)@[j]
            }),
{
    let ghost orig = pixels@;
    let len = pixels.len();
    let n = len / 4;
    let mut i: usize = 0;
    while i < n
        invariant
            n == orig.len() / 4,
            len == orig.len(),
            pixels@.len() == orig.len(),
            i <= n,
            forall|j: int|
                0 <= j < orig.len() ==> #[trigger] pixels@[j] == (if j % 4 == 3 && j / 4 < i {
                    keyed_alpha(orig[j - 3], orig[j - 2], orig[j - 1])
                } else {
                    orig[j]
                }),
        decreases n - i,
    {
        assert(i * 4 + 3 < len) by (nonlinear_arith)
            requires
                i < n,
                n == len / 4,
        ;
        let off = i * 4;
        let is_key = pixels[off + 2] == 255 && pixels[off + 1] == 0 && pixels[off] == 0;
        pixels.set(off + 3, if is_key { 0 } else { 255 });
        i = i + 1;
    }
}

} // verus!
