//! Capture geometry of the window-thread capturer.
use vstd::prelude::*;
use crate::geometry::Rect;
use crate::output::clipboard::unsigned32;

verus! {

/// The virtual screen from its origin and size.
pub fn virtual_screen_rect(x: i32, y: i32, w: i32, h: i32) -> (r: Rect)
    requires
        i32::MIN <= x + w <= i32::MAX,
        i32::MIN <= y + h <= i32::MAX,
    ensures
        r == (Rect { left: x, top: y, right: (x + w) as i32, bottom: (y + h) as i32 }),
{
    Rect { left: x, top: y, right: x + w, bottom: y + h }
}

/// A rectangle from `(left, top, right, bottom)`.
pub fn region_rect(rect: (i32, i32, i32, i32)) -> (r: Rect)
    ensures
        r == (Rect { left: rect.0, top: rect.1, right: rect.2, bottom: rect.3 }),
{
    Rect { left: rect.0, top: rect.1, right: rect.2, bottom: rect.3 }
}

/// The capture size: the rectangle's width and height taken as `u32` (a
/// negative extent wraps round, as a cast does), an error when either is 0.
pub fn capture_dimensions(rect: Rect) -> (r: Result<(u32, u32), String>)
    requires
        i32::MIN <= rect.right - rect.left <= i32::MAX,
        i32::MIN <= rect.bottom - rect.top <= i32::MAX,
    ensures
        ({
            let w = unsigned32(rect.right - rect.left);
            let h = unsigned32(rect.bottom - rect.top);
            match r {
                Ok((rw, rh)) => w != 0 && h != 0 && rw == w && rh == h,
                Err(msg) => (w == 0 || h == 0) && msg@ == "empty capture region"@,
            }
        }),
{
    let dw: i32 = rect.right - rect.left;
    let dh: i32 = rect.bottom - rect.top;
    let width: u32 = if dw < 0 { (dw as i64 + 0x1_0000_0000i64) as u32 } else { dw as u32 };
    let height: u32 = if dh < 0 { (dh as i64 + 0x1_0000_0000i64) as u32 } else { dh as u32 };
    if width == 0 || height == 0 {
        return Err(String::from_str("empty capture region"));
    }
    Ok((width, height))
}

} // verus!
