//! Menu icons: their ink colours and the alpha fix-up after GDI drawing.
use vstd::prelude::*;

verus! {

/// Side of a menu icon, in pixels.
pub const ICON_SIZE: i32 = 16;

/// Ink of a toggle item's icon: Windows blue when on, a grey that suits the
/// menu background when off.
pub fn toggle_fg(checked: bool, dark: bool) -> (c: u32)
    ensures
        c == (if checked { 0x00D4_7800u32 } else if dark { 0x00A0_A0A0u32 } else { 0x00C8_C8C8u32 }),
{
    if checked {
        0x00D4_7800
    } else if dark {
        0x00A0_A0A0
    } else {
        0x00C8_C8C8
    }
}

/// Ink of an ordinary item's icon: light grey on dark menus, dark grey on
/// light ones.
pub fn icon_fg(dark: bool) -> (c: u32)
    ensures
        c == (if dark { 0x00C8_C8C8u32 } else { 0x0030_3030u32 }),
{
    if dark { 0x00C8_C8C8 } else { 0x0030_3030 }
}

/// Alpha of a BGRA pixel drawn on black: opaque where anything was drawn.
pub open spec fn drawn_alpha(b: u8, g: u8, r: u8) -> u8 {
    if r > 0 || g > 0 || b > 0 { 255 } else { 0 }
}

/// Sets the alpha byte of every whole BGRA pixel: 255 where the pixel is
/// not black, 0 where it is; colour bytes and any trailing partial pixel stay.
pub fn fix_alpha(pixels: &mut Vec<u8>)
    ensures
        final(pixels)@.len() == old(pixels)@.len(),
        forall|j: int|
            0 <= j < old(pixels)@.len() ==> #[trigger] final(pixels)@[j] == (if j % 4 == 3 && j / 4 < old(
                pixels,
            )@.len() / 4 {
                drawn_alpha(old(pixels)@[j - 3], old(pixels)@[j - 2], old(pixels)@[j - 1])
            } else {
                old(pixels)@[j]
            }),
{
    let ghost orig = pixels@;
    let len = pixels.len();
    let n = len / 4;
    let mut i: usize = 0;
    while i < n
        invariant
            n == orig.len() / 4,
            len == orig.len(),
            pixels@.len() == orig.len(),
            i <= n,
            forall|j: int|
                0 <= j < orig.len() ==> #[trigger] pixels@[j] == (if j % 4 == 3 && j / 4 < i {
                    drawn_alpha(orig[j - 3], orig[j - 2], orig[j - 1])
                } else {
                    orig[j]
                }),
        decreases n - i,
    {
        assert(i * 4 + 3 < len) by (nonlinear_arith)
            requires
                i < n,
                n == len / 4,
        ;
        let off = i * 4;
        let b = pixels[off];
        let g = pixels[off + 1];
        let r = pixels[off + 2];
        pixels.set(off + 3, if r > 0 || g > 0 || b > 0 { 255 } else { 0 });
        i = i + 1;
    }
}

} // verus!
