//! Screen-capture geometry: the captured bitmap, the size of a capture, where
//! the cursor image goes, and which rectangle stands for a window.
use vstd::prelude::*;
use crate::geometry::{Point, Rect};

verus! {

/// A captured image: 32-bit BGRA pixels, row-major, top row first.
#[derive(Clone, Debug)]
pub struct ScreenBitmap {
    pub width: i32,
    pub height: i32,
    pub data: Vec<u8>,
}

impl ScreenBitmap {
    /// Width and height are not negative and `data` holds exactly four bytes
    /// per pixel.
    pub open spec fn wf(&self) -> bool {
        &&& self.width >= 0
        &&& self.height >= 0
        &&& self.data@.len() == self.width * self.height * 4
    }

    /// A copy with the same size and the same bytes.
    pub fn duplicate(&self) -> (c: ScreenBitmap)
        ensures
            c.width == self.width,
            c.height == self.height,
            c.data@ == self.data@,
    {
        let data = self.data.clone();
        assert(data@ =~= self.data@);
        ScreenBitmap { width: self.width, height: self.height, data }
    }
}

/// Why a capture rectangle could not be had.
#[derive(Clone, Copy, Debug, PartialEq, Eq, Structural)]
pub enum ScreenError {
    /// The rectangle to capture has no area.
    EmptyRect,
    /// There is no foreground window.
    NoForegroundWindow,
    /// The virtual screen has no area.
    EmptyVirtualScreen,
    /// The window's rectangle could not be read.
    WindowRectFailed,
}

/// Width and height of a capture of `rect`; an error when either is not
/// positive.
pub fn capture_extent(rect: Rect) -> (r: Result<(i32, i32), ScreenError>)
    requires
        i32::MIN <= rect.right - rect.left <= i32::MAX,
        i32::MIN <= rect.bottom - rect.top <= i32::MAX,
    ensures
        r == (if rect.right - rect.left > 0 && rect.bottom - rect.top > 0 {
            Ok::<(i32, i32), ScreenError>(((rect.right - rect.left) as i32, (rect.bottom - rect.top) as i32))
        } else {
            Err(ScreenError::EmptyRect)
        }),
{
    let w = rect.right - rect.left;
    let h = rect.bottom - rect.top;
    if w > 0 && h > 0 {
        Ok((w, h))
    } else {
        Err(ScreenError::EmptyRect)
    }
}

/// Where the cursor image goes in a capture of `rect`: the cursor position
/// relative to the capture, less the cursor's hot spot.
pub fn cursor_origin(cursor: Point, rect: Rect, hotspot_x: u32, hotspot_y: u32) -> (p: Point)
    requires
        hotspot_x <= i32::MAX,
        hotspot_y <= i32::MAX,
        i32::MIN <= cursor.x - rect.left <= i32::MAX,
        i32::MIN <= cursor.y - rect.top <= i32::MAX,
        i32::MIN <= cursor.x - rect.left - hotspot_x <= i32::MAX,
        i32::MIN <= cursor.y - rect.top - hotspot_y <= i32::MAX,
    ensures
        p.x == cursor.x - rect.left - hotspot_x,
        p.y == cursor.y - rect.top - hotspot_y,
{
    Point { x: cursor.x - rect.left - hotspot_x as i32, y: cursor.y - rect.top - hotspot_y as i32 }
}

/// The virtual screen (all monitors) from its origin and size; an error when
/// it has no area.
pub fn fullscreen_rect(left: i32, top: i32, width: i32, height: i32) -> (r: Result<Rect, ScreenError>)
    requires
        left + width <= i32::MAX,
        top + height <= i32::MAX,
    ensures
        r == (if width > 0 && height > 0 {
            Ok::<Rect, ScreenError>(
                Rect { left, top, right: (left + width) as i32, bottom: (top + height) as i32 },
            )
        } else {
            Err(ScreenError::EmptyVirtualScreen)
        }),
{
    if width > 0 && height > 0 {
        Ok(Rect { left, top, right: left + width, bottom: top + height })
    } else {
        Err(ScreenError::EmptyVirtualScreen)
    }
}

/// The rectangle that stands for a window: its DWM extended frame when that
/// is not empty (no invisible resize borders), else its window rectangle.
pub fn window_rect(dwm_frame: Option<Rect>, fallback: Option<Rect>) -> (r: Result<Rect, ScreenError>)
    ensures
        r == (if dwm_frame is Some && dwm_frame->0.spec_is_nonempty() {
            Ok::<Rect, ScreenError>(dwm_frame->0)
        } else if fallback is Some {
            Ok(fallback->0)
        } else {
            Err(ScreenError::WindowRectFailed)
        }),
{
    match dwm_frame {
        Some(f) => if f.is_nonempty() {
            return Ok(f);
        },
        None => {},
    }
    match fallback {
        Some(w) => Ok(w),
        None => Err(ScreenError::WindowRectFailed),
    }
}

/// The rectangle of the foreground window (handle 0 when there is none).
pub fn active_window_rect(foreground: isize, dwm_frame: Option<Rect>, fallback: Option<Rect>) -> (r: Result<Rect, ScreenError>)
    ensures
        foreground == 0 ==> r == Err::<Rect, ScreenError>(ScreenError::NoForegroundWindow),
        foreground != 0 ==> r == (if dwm_frame is Some && dwm_frame->0.spec_is_nonempty() {
            Ok::<Rect, ScreenError>(dwm_frame->0)
        } else if fallback is Some {
            Ok(fallback->0)
        } else {
            Err(ScreenError::WindowRectFailed)
        }),
{
    if foreground == 0 {
        return Err(ScreenError::NoForegroundWindow);
    }
    window_rect(dwm_frame, fallback)
}

} // verus!
