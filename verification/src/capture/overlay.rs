//! Overlay logic: the drag-to-select state, the window-pick decisions, the
//! keyboard and mouse hook decisions, and the per-pixel content of the
//! layered overlay windows.
use vstd::prelude::*;
use crate::geometry::{Point, Rect, normalise, clamp_int, min_int, max_int};
use crate::event::AppEvent;
use crate::raster::{covered, fill_rows, lemma_row_before, row_start};

verus! {

/// Dimmed, half-transparent black (ARGB) that covers the screen while picking.
pub const MASK_ARGB: u32 = 0x8800_0000;
/// Nearly transparent fill inside the picked window: it still takes clicks.
pub const HOLE_ARGB: u32 = 0x0100_0000;
/// Opaque orange frame drawn round the picked window or the capture area.
pub const BORDER_ARGB: u32 = 0xFFFF_A800;
/// Fully transparent pixel.
pub const CLEAR_ARGB: u32 = 0;
/// Width of the orange frame, in pixels.
pub const FRAME_WIDTH: usize = 4;

/// A screen coordinate moved into overlay coordinates and clamped to the
/// overlay's extent.
pub open spec fn dib_edge(v: int, origin: int, extent: int) -> int {
    clamp_int(v - origin, 0, extent)
}

/// Colour of pixel `p` of the pick overlay when the hovered window occupies
/// `[l, r) x [t, b)` in overlay coordinates, `vw` pixels per row.
pub open spec fn spotlight_color(p: int, vw: int, l: int, t: int, r: int, b: int) -> u32 {
    if !(r > l && b > t) {
        MASK_ARGB
    } else {
        let il = l + 4;
        let it = t + 4;
        let ir = if r > 4 { r - 4 } else { l };
        let ib = if b > 4 { b - 4 } else { t };
        if covered(p, t, min_int(it, b), vw, l, r) || covered(p, max_int(ib, t), b, vw, l, r)
            || covered(p, it, ib, vw, l, il) || covered(p, it, ib, vw, ir, r) {
            BORDER_ARGB
        } else if il < ir && it < ib && covered(p, it, ib, vw, il, ir) {
            HOLE_ARGB
        } else {
            MASK_ARGB
        }
    }
}

/// Colour of pixel `p` of the pick overlay covering the virtual screen at
/// `(vx, vy)` of size `vw x vh`, with the visible frame of the hovered window
/// (if any) in screen coordinates.
pub open spec fn spotlight_pixel(p: int, vx: int, vy: int, vw: int, vh: int, hover: Option<Rect>) -> u32 {
    match hover {
        None => MASK_ARGB,
        Some(wr) => spotlight_color(
            p,
            vw,
            dib_edge(wr.left as int, vx, vw),
            dib_edge(wr.top as int, vy, vh),
            dib_edge(wr.right as int, vx, vw),
            dib_edge(wr.bottom as int, vy, vh),
        ),
    }
}

/// Colour of pixel `p` of the countdown highlight when the capture area
/// occupies `[l, r) x [t, b)` in overlay coordinates.
pub open spec fn border_color(p: int, vw: int, l: int, t: int, r: int, b: int) -> u32 {
    if !(r > l && b > t) {
        CLEAR_ARGB
    } else {
        let il = min_int(l + 4, r);
        let it = min_int(t + 4, b);
        let ir = if r > 4 { r - 4 } else { l };
        let ib = if b > 4 { b - 4 } else { t };
        if covered(p, t, min_int(it, b), vw, l, r) || covered(p, max_int(ib, t), b, vw, l, r)
            || covered(p, it, ib, vw, l, il) || covered(p, it, ib, vw, ir, r) {
            BORDER_ARGB
        } else {
            CLEAR_ARGB
        }
    }
}

/// Colour of pixel `p` of the countdown highlight over the virtual screen.
pub open spec fn border_pixel(p: int, vx: int, vy: int, vw: int, vh: int, area: Rect) -> u32 {
    border_color(
        p,
        vw,
        dib_edge(area.left as int, vx, vw),
        dib_edge(area.top as int, vy, vh),
        dib_edge(area.right as int, vx, vw),
        dib_edge(area.bottom as int, vy, vh),
    )
}

/// `v - origin` clamped to `[0, extent]`.
fn clamp_edge(v: i32, origin: i32, extent: i32) -> (e: usize)
    requires
        extent >= 0,
    ensures
        e == dib_edge(v as int, origin as int, extent as int),
{
    let d: i64 = v as i64 - origin as i64;
    if d < 0 {
        0
    } else if d > extent as i64 {
        extent as usize
    } else {
        d as usize
    }
}

/// Rows strictly before `ib <= vh - 4` leave room for a segment that runs
/// up to three pixels past the end of a row.
proof fn lemma_left_segment_fits(ib: int, vh: int, w: int, c1: int)
    requires
        1 <= ib <= vh - 4,
        w >= 1,
        c1 <= w + 3,
    ensures
        (ib - 1) * w + c1 <= vh * w,
{
    assert((ib - 1) * w + w + 3 <= vh * w) by (nonlinear_arith)
        requires
            1 <= ib <= vh - 4,
            w >= 1,
    ;
}

/// The pick overlay's pixels (ARGB, row-major, top row first): the whole
/// virtual screen dimmed, and where the hovered window is, a clear hole with
/// a 4-pixel orange frame. `None` when the virtual screen is empty.
pub fn spotlight_pixels(vx: i32, vy: i32, vw: i32, vh: i32, hover: Option<Rect>) -> (px: Option<Vec<u32>>)
    requires
        vw > 0 && vh > 0 ==> vw * vh <= i32::MAX,
    ensures
        px is None <==> (vw <= 0 || vh <= 0),
        px matches Some(v) ==> v@.len() == vw * vh && forall|p: int|
            0 <= p < v@.len() ==> #[trigger] v@[p] == spotlight_pixel(
                p,
                vx as int,
                vy as int,
                vw as int,
                vh as int,
                hover,
            ),
{
    if vw <= 0 || vh <= 0 {
        return None;
    }
    let w = vw as usize;
    let h = vh as usize;
    assert(w * h <= i32::MAX) by (nonlinear_arith)
        requires
            w == vw,
            h == vh,
            vw * vh <= i32::MAX,
    ;
    let n = w * h;
    let mut px: Vec<u32> = vec![MASK_ARGB; n];
    match hover {
        None => {},
        Some(wr) => {
            let l = clamp_edge(wr.left, vx, vw);
            let t = clamp_edge(wr.top, vy, vh);
            let r = clamp_edge(wr.right, vx, vw);
            let b = clamp_edge(wr.bottom, vy, vh);
            if r > l && b > t {
                let il = l + FRAME_WIDTH;
                let it = t + FRAME_WIDTH;
                let ir = if r > FRAME_WIDTH { r - FRAME_WIDTH } else { l };
                let ib = if b > FRAME_WIDTH { b - FRAME_WIDTH } else { t };
                let top_end = if it < b { it } else { b };
                let bottom_start = if ib > t { ib } else { t };
                proof {
                    if it < ib {
                        lemma_row_before(ib - 1, h as int, w as int);
                        lemma_left_segment_fits(ib as int, h as int, w as int, il as int);
                    }
                    if t < top_end {
                        lemma_row_before(top_end - 1, h as int, w as int);
                    }
                    lemma_row_before(b - 1, h as int, w as int);
                }
                if il < ir && it < ib {
                    fill_rows(&mut px, it, ib, w, il, ir, HOLE_ARGB);
                }
                fill_rows(&mut px, t, top_end, w, l, r, BORDER_ARGB);
                fill_rows(&mut px, bottom_start, b, w, l, r, BORDER_ARGB);
                fill_rows(&mut px, it, ib, w, l, il, BORDER_ARGB);
                fill_rows(&mut px, it, ib, w, ir, r, BORDER_ARGB);
            }
        },
    }
    Some(px)
}

/// The countdown highlight's pixels (ARGB, row-major): transparent, with a
/// 4-pixel orange frame round the capture area. `None` when the virtual
/// screen is empty.
pub fn capture_border_pixels(vx: i32, vy: i32, vw: i32, vh: i32, area: Rect) -> (px: Option<Vec<u32>>)
    requires
        vw > 0 && vh > 0 ==> vw * vh <= i32::MAX,
    ensures
        px is None <==> (vw <= 0 || vh <= 0),
        px matches Some(v) ==> v@.len() == vw * vh && forall|p: int|
            0 <= p < v@.len() ==> #[trigger] v@[p] == border_pixel(
                p,
                vx as int,
                vy as int,
                vw as int,
                vh as int,
                area,
            ),
{
    if vw <= 0 || vh <= 0 {
        return None;
    }
    let w = vw as usize;
    let h = vh as usize;
    assert(w * h <= i32::MAX) by (nonlinear_arith)
        requires
            w == vw,
            h == vh,
            vw * vh <= i32::MAX,
    ;
    let n = w * h;
    let mut px: Vec<u32> = vec![CLEAR_ARGB; n];
    let l = clamp_edge(area.left, vx, vw);
    let t = clamp_edge(area.top, vy, vh);
    let r = clamp_edge(area.right, vx, vw);
    let b = clamp_edge(area.bottom, vy, vh);
    if r > l && b > t {
        let il = if l + FRAME_WIDTH < r { l + FRAME_WIDTH } else { r };
        let it = if t + FRAME_WIDTH < b { t + FRAME_WIDTH } else { b };
        let ir = if r > FRAME_WIDTH { r - FRAME_WIDTH } else { l };
        let ib = if b > FRAME_WIDTH { b - FRAME_WIDTH } else { t };
        let top_end = if it < b { it } else { b };
        let bottom_start = if ib > t { ib } else { t };
        proof {
            if it < ib {
                lemma_row_before(ib - 1, h as int, w as int);
            }
            if t < top_end {
                lemma_row_before(top_end - 1, h as int, w as int);
            }
            lemma_row_before(b - 1, h as int, w as int);
        }
        fill_rows(&mut px, t, top_end, w, l, r, BORDER_ARGB);
        fill_rows(&mut px, bottom_start, b, w, l, r, BORDER_ARGB);
        fill_rows(&mut px, it, ib, w, l, il, BORDER_ARGB);
        fill_rows(&mut px, it, ib, w, ir, r, BORDER_ARGB);
    }
    Some(px)
}

// ─── Region selection ───────────────────────────────────────────────────────

/// Drag state of the region overlay, in screen coordinates.
#[derive(Clone, Copy, Debug, PartialEq, Eq, Structural)]
pub struct RegionState {
    pub dragging: bool,
    pub start_x: i32,
    pub start_y: i32,
    pub cur_x: i32,
    pub cur_y: i32,
}

/// The rectangle spanned by the drag so far.
pub open spec fn spec_selection(s: RegionState) -> Rect {
    Rect {
        left: min_int(s.start_x as int, s.cur_x as int) as i32,
        top: min_int(s.start_y as int, s.cur_y as int) as i32,
        right: max_int(s.start_x as int, s.cur_x as int) as i32,
        bottom: max_int(s.start_y as int, s.cur_y as int) as i32,
    }
}

/// A selection counts only when it is more than 4 pixels wide and high.
pub open spec fn big_enough(r: Rect) -> bool {
    r.right - r.left > 4 && r.bottom - r.top > 4
}

impl RegionState {
    /// No drag in progress.
    pub fn new() -> (s: RegionState)
        ensures
            !s.dragging,
    {
        RegionState { dragging: false, start_x: 0, start_y: 0, cur_x: 0, cur_y: 0 }
    }

    /// Left button down at `(x, y)`: a drag starts there.
    pub fn on_button_down(&mut self, x: i32, y: i32)
        ensures
            *final(self) == (RegionState { dragging: true, start_x: x, start_y: y, cur_x: x, cur_y: y }),
    {
        *self = RegionState { dragging: true, start_x: x, start_y: y, cur_x: x, cur_y: y };
    }

    /// Mouse moved to `(x, y)`: while dragging, the far corner follows and
    /// the overlay must be repainted (the result is true).
    pub fn on_mouse_move(&mut self, x: i32, y: i32) -> (repaint: bool)
        ensures
            repaint == old(self).dragging,
            old(self).dragging ==> *final(self) == (RegionState { cur_x: x, cur_y: y, ..*old(self) }),
            !old(self).dragging ==> *final(self) == *old(self),
    {
        if self.dragging {
            self.cur_x = x;
            self.cur_y = y;
            true
        } else {
            false
        }
    }

    /// The selection to paint while dragging.
    pub fn selection(&self) -> (r: Option<Rect>)
        ensures
            r == (if self.dragging { Some(spec_selection(*self)) } else { None }),
    {
        if self.dragging {
            Some(normalise(self.start_x, self.start_y, self.cur_x, self.cur_y))
        } else {
            None
        }
    }

    /// Left button up: ends a drag with the selected rectangle, or with a
    /// cancel when it is 4 pixels or less in either direction. `None` when no
    /// drag was in progress.
    pub fn on_button_up(&mut self) -> (e: Option<AppEvent>)
        ensures
            !old(self).dragging ==> e is None && *final(self) == *old(self),
            old(self).dragging ==> *final(self) == (RegionState { dragging: false, ..*old(self) }) && e
                == Some(
                if big_enough(spec_selection(*old(self))) {
                    AppEvent::RegionSelected(spec_selection(*old(self)))
                } else {
                    AppEvent::OverlayCancelled
                },
            ),
    {
        if !self.dragging {
            return None;
        }
        self.dragging = false;
        let r = normalise(self.start_x, self.start_y, self.cur_x, self.cur_y);
        if (r.right as i64 - r.left as i64) > 4 && (r.bottom as i64 - r.top as i64) > 4 {
            Some(AppEvent::RegionSelected(r))
        } else {
            Some(AppEvent::OverlayCancelled)
        }
    }
}

/// A finished drag that reports a region always reports one more than 4
/// pixels wide and high, whose corners are the press and release points.
pub proof fn lemma_selected_region_is_the_drag(s: RegionState, r: Rect)
    requires
        s.dragging,
        (if big_enough(spec_selection(s)) {
            AppEvent::RegionSelected(spec_selection(s))
        } else {
            AppEvent::OverlayCancelled
        }) == AppEvent::RegionSelected(r),
    ensures
        r.right - r.left > 4,
        r.bottom - r.top > 4,
        r.left == min_int(s.start_x as int, s.cur_x as int),
        r.right == max_int(s.start_x as int, s.cur_x as int),
        r.top == min_int(s.start_y as int, s.cur_y as int),
        r.bottom == max_int(s.start_y as int, s.cur_y as int),
{
}

/// Width of the white bars drawn inside a selection.
pub const SELECTION_BAR: i32 = 3;

/// Whether overlay pixel `(x, y)` lies in one of `rects`.
pub open spec fn in_any(rects: Seq<Rect>, x: int, y: int) -> bool {
    exists|i: int| 0 <= i < rects.len() && #[trigger] rects[i].spec_contains(Point { x: x as i32, y: y as i32 })
}

/// The rectangles the region overlay paints round selection `r` (screen
/// coordinates) on an overlay whose top-left corner is `(ovx, ovy)`: first
/// four white bars 3 pixels wide just inside the selection (top, bottom,
/// left, right), then four black 1-pixel lines just outside it (top, bottom,
/// left, right; those that would start left of or above the overlay start at
/// its edge).
pub fn selection_frame(r: Rect, ovx: i32, ovy: i32) -> (f: ([Rect; 4], [Rect; 4]))
    requires
        i32::MIN + 3 <= r.left - ovx <= i32::MAX - 3,
        i32::MIN + 3 <= r.top - ovy <= i32::MAX - 3,
        i32::MIN + 3 <= r.right - ovx <= i32::MAX - 3,
        i32::MIN + 3 <= r.bottom - ovy <= i32::MAX - 3,
    ensures
        ({
            let l = r.left - ovx;
            let t = r.top - ovy;
            let ri = r.right - ovx;
            let b = r.bottom - ovy;
            &&& f.0@ == seq![
                Rect { left: l as i32, top: t as i32, right: ri as i32, bottom: min_int(t + 3, b) as i32 },
                Rect { left: l as i32, top: max_int(b - 3, t) as i32, right: ri as i32, bottom: b as i32 },
                Rect { left: l as i32, top: t as i32, right: min_int(l + 3, ri) as i32, bottom: b as i32 },
                Rect { left: max_int(ri - 3, l) as i32, top: t as i32, right: ri as i32, bottom: b as i32 },
            ]
            &&& f.1@ == seq![
                Rect { left: max_int(l - 1, 0) as i32, top: max_int(t - 1, 0) as i32, right: (ri + 1) as i32, bottom: max_int(t, 0) as i32 },
                Rect { left: max_int(l - 1, 0) as i32, top: b as i32, right: (ri + 1) as i32, bottom: (b + 1) as i32 },
                Rect { left: max_int(l - 1, 0) as i32, top: max_int(t - 1, 0) as i32, right: l as i32, bottom: (b + 1) as i32 },
                Rect { left: ri as i32, top: max_int(t - 1, 0) as i32, right: (ri + 1) as i32, bottom: (b + 1) as i32 },
            ]
        }),
{
    let l = r.left - ovx;
    let t = r.top - ovy;
    let ri = r.right - ovx;
    let b = r.bottom - ovy;
    let lo_l = if l - 1 > 0 { l - 1 } else { 0 };
    let lo_t = if t - 1 > 0 { t - 1 } else { 0 };
    let white = [
        Rect { left: l, top: t, right: ri, bottom: if t + SELECTION_BAR < b { t + SELECTION_BAR } else { b } },
        Rect { left: l, top: if b - SELECTION_BAR > t { b - SELECTION_BAR } else { t }, right: ri, bottom: b },
        Rect { left: l, top: t, right: if l + SELECTION_BAR < ri { l + SELECTION_BAR } else { ri }, bottom: b },
        Rect { left: if ri - SELECTION_BAR > l { ri - SELECTION_BAR } else { l }, top: t, right: ri, bottom: b },
    ];
    let black = [
        Rect { left: lo_l, top: lo_t, right: ri + 1, bottom: if t > 0 { t } else { 0 } },
        Rect { left: lo_l, top: b, right: ri + 1, bottom: b + 1 },
        Rect { left: lo_l, top: lo_t, right: l, bottom: b + 1 },
        Rect { left: ri, top: lo_t, right: ri + 1, bottom: b + 1 },
    ];
    assert(white@ =~= seq![white[0], white[1], white[2], white[3]]);
    assert(black@ =~= seq![black[0], black[1], black[2], black[3]]);
    (white, black)
}

/// The white bars cover exactly the band of the selection within 3 pixels
/// of its edges: a pixel is painted white when and only when it is inside
/// the selection and less than 3 pixels from one of its sides.
pub proof fn lemma_white_bars_are_the_band(l: int, t: int, ri: int, b: int, x: int, y: int)
    requires
        l < ri,
        t < b,
        i32::MIN <= x <= i32::MAX,
        i32::MIN <= y <= i32::MAX,
        i32::MIN + 3 <= l <= i32::MAX - 3,
        i32::MIN + 3 <= t <= i32::MAX - 3,
        i32::MIN + 3 <= ri <= i32::MAX - 3,
        i32::MIN + 3 <= b <= i32::MAX - 3,
    ensures
        in_any(
            seq![
                Rect { left: l as i32, top: t as i32, right: ri as i32, bottom: min_int(t + 3, b) as i32 },
                Rect { left: l as i32, top: max_int(b - 3, t) as i32, right: ri as i32, bottom: b as i32 },
                Rect { left: l as i32, top: t as i32, right: min_int(l + 3, ri) as i32, bottom: b as i32 },
                Rect { left: max_int(ri - 3, l) as i32, top: t as i32, right: ri as i32, bottom: b as i32 },
            ],
            x,
            y,
        ) <==> (l <= x < ri && t <= y < b && (x < l + 3 || x >= ri - 3 || y < t + 3 || y >= b - 3)),
{
    let rs = seq![
        Rect { left: l as i32, top: t as i32, right: ri as i32, bottom: min_int(t + 3, b) as i32 },
        Rect { left: l as i32, top: max_int(b - 3, t) as i32, right: ri as i32, bottom: b as i32 },
        Rect { left: l as i32, top: t as i32, right: min_int(l + 3, ri) as i32, bottom: b as i32 },
        Rect { left: max_int(ri - 3, l) as i32, top: t as i32, right: ri as i32, bottom: b as i32 },
    ];
    let p = Point { x: x as i32, y: y as i32 };
    if l <= x < ri && t <= y < b && (x < l + 3 || x >= ri - 3 || y < t + 3 || y >= b - 3) {
        if y < t + 3 {
            assert(rs[0].spec_contains(p));
        } else if y >= b - 3 {
            assert(rs[1].spec_contains(p));
        } else if x < l + 3 {
            assert(rs[2].spec_contains(p));
        } else {
            assert(rs[3].spec_contains(p));
        }
    }
}

// ─── Window pick ────────────────────────────────────────────────────────────

/// WS_EX_TOOLWINDOW
pub const WS_EX_TOOLWINDOW: u32 = 0x0000_0080;
/// WS_EX_APPWINDOW
pub const WS_EX_APPWINDOW: u32 = 0x0004_0000;
/// WS_SYSMENU
pub const WS_SYSMENU: u32 = 0x0008_0000;

pub open spec fn spec_is_pickable(
    ex_style: u32,
    has_owner: bool,
    cloaked: bool,
    alt_tab: bool,
    text_len: i32,
    style: u32,
) -> bool {
    if ex_style & WS_EX_TOOLWINDOW != 0 || has_owner || cloaked || !alt_tab {
        false
    } else if ex_style & WS_EX_APPWINDOW != 0 {
        true
    } else {
        text_len > 0 && style & WS_SYSMENU != 0
    }
}

/// Whether a top-level window is an application window worth picking: no
/// tool windows, owned windows, cloaked (hidden) windows or windows that
/// Alt+Tab would not show; app windows always; others only with a title and
/// a system menu.
pub fn is_pickable_app_window(
    ex_style: u32,
    has_owner: bool,
    cloaked: bool,
    alt_tab: bool,
    text_len: i32,
    style: u32,
) -> (b: bool)
    ensures
        b == spec_is_pickable(ex_style, has_owner, cloaked, alt_tab, text_len, style),
{
    if ex_style & WS_EX_TOOLWINDOW != 0 || has_owner || cloaked || !alt_tab {
        false
    } else if ex_style & WS_EX_APPWINDOW != 0 {
        true
    } else {
        text_len > 0 && style & WS_SYSMENU != 0
    }
}

/// Window class names of the desktop ("Progman" and "WorkerW"), which are
/// never picked.
pub open spec fn spec_is_desktop_class(name: Seq<u16>) -> bool {
    name == seq![0x50u16, 0x72, 0x6F, 0x67, 0x6D, 0x61, 0x6E] || name == seq![
        0x57u16,
        0x6F,
        0x72,
        0x6B,
        0x65,
        0x72,
        0x57,
    ]
}

/// Whether a window class name (UTF-16 units, without terminator) is one of
/// the desktop's.
pub fn is_desktop_class(name: &[u16]) -> (b: bool)
    ensures
        b == spec_is_desktop_class(name@),
{
    if name.len() != 7 {
        return false;
    }
    let progman = name[0] == 0x50 && name[1] == 0x72 && name[2] == 0x6F && name[3] == 0x67
        && name[4] == 0x6D && name[5] == 0x61 && name[6] == 0x6E;
    let workerw = name[0] == 0x57 && name[1] == 0x6F && name[2] == 0x72 && name[3] == 0x6B
        && name[4] == 0x65 && name[5] == 0x72 && name[6] == 0x57;
    proof {
        if progman {
            assert(name@ =~= seq![0x50u16, 0x72, 0x6F, 0x67, 0x6D, 0x61, 0x6E]);
        }
        if workerw {
            assert(name@ =~= seq![0x57u16, 0x6F, 0x72, 0x6B, 0x65, 0x72, 0x57]);
        }
    }
    progman || workerw
}

/// The frame used for a window: its DWM extended frame when that is not
/// empty, else its window rectangle when that is not empty.
pub fn usable_frame(dwm_frame: Option<Rect>, window_rect: Option<Rect>) -> (r: Option<Rect>)
    ensures
        r == (if dwm_frame is Some && dwm_frame->0.spec_is_nonempty() {
            dwm_frame
        } else if window_rect is Some && window_rect->0.spec_is_nonempty() {
            window_rect
        } else {
            None
        }),
{
    match dwm_frame {
        Some(f) => if f.is_nonempty() {
            return Some(f);
        },
        None => {},
    }
    match window_rect {
        Some(w) => if w.is_nonempty() {
            Some(w)
        } else {
            None
        },
        None => None,
    }
}

/// Whether the cursor at `pt` is over a candidate window with this frame.
pub fn window_hit(frame: Option<Rect>, pt: Point) -> (b: bool)
    ensures
        b == (frame is Some && frame->0.spec_contains(pt)),
{
    match frame {
        Some(f) => f.contains(pt),
        None => false,
    }
}

/// A top-level window as the pick overlay sees it, listed in Z order (top
/// first): its handle, whether it is visible, whether it is the desktop,
/// whether it is an application window worth picking, and its frame.
#[derive(Clone, Copy, Debug, PartialEq, Eq, Structural)]
pub struct WindowRecord {
    pub hwnd: isize,
    pub visible: bool,
    pub desktop: bool,
    pub pickable: bool,
    pub frame: Option<Rect>,
}

/// A window the pick overlay may choose at `pt`: not the overlay itself,
/// visible, not the desktop, pickable, and with its frame under `pt`.
pub open spec fn is_pick_candidate(w: WindowRecord, overlay: isize, pt: Point) -> bool {
    &&& w.hwnd != overlay
    &&& w.visible
    &&& !w.desktop
    &&& w.pickable
    &&& w.frame is Some && w.frame->0.spec_contains(pt)
}

/// The top-most window at `pt`: the position of the first candidate in Z
/// order, or `None` when no window qualifies.
pub fn first_window_at(windows: &Vec<WindowRecord>, overlay: isize, pt: Point) -> (r: Option<usize>)
    ensures
        r matches Some(i) ==> i < windows@.len() && is_pick_candidate(windows@[i as int], overlay, pt)
            && forall|j: int| 0 <= j < i ==> !is_pick_candidate(#[trigger] windows@[j], overlay, pt),
        r is None ==> forall|j: int| 0 <= j < windows@.len() ==> !is_pick_candidate(
            #[trigger] windows@[j],
            overlay,
            pt,
        ),
{
    let mut i: usize = 0;
    while i < windows.len()
        invariant
            i <= windows@.len(),
            forall|j: int| 0 <= j < i ==> !is_pick_candidate(#[trigger] windows@[j], overlay, pt),
        decreases windows@.len() - i,
    {
        let w = windows[i];
        if w.hwnd != overlay && w.visible && !w.desktop && w.pickable && window_hit(w.frame, pt) {
            return Some(i);
        }
        i = i + 1;
    }
    None
}

/// The result of a pick: the window under the cursor, or a cancel when
/// there is none (a null handle).
pub fn pick_result(hover: isize) -> (e: AppEvent)
    ensures
        e == (if hover != 0 { AppEvent::WindowPicked(hover) } else { AppEvent::OverlayCancelled }),
{
    if hover != 0 {
        AppEvent::WindowPicked(hover)
    } else {
        AppEvent::OverlayCancelled
    }
}

// ─── Hooks ──────────────────────────────────────────────────────────────────

pub const HC_ACTION: i32 = 0;
pub const WM_KEYDOWN: u32 = 0x0100;
pub const WM_SYSKEYDOWN: u32 = 0x0104;
pub const WM_LBUTTONDOWN: u32 = 0x0201;
pub const WM_LBUTTONUP: u32 = 0x0202;
pub const VK_ESCAPE: u32 = 0x1B;

/// What a low-level hook does with an input event.
#[derive(Clone, Copy, Debug, PartialEq, Eq, Structural)]
pub enum HookDecision {
    /// Hand the event on to the next hook.
    PassOn,
    /// Swallow the event.
    Swallow,
    /// Swallow the event and post a notification to this overlay window.
    SwallowAndNotify(isize),
}

/// Keyboard hook while an overlay is open (`overlay` is its handle, 0 when
/// none): Escape pressed (also with Alt) cancels the overlay and is swallowed.
pub fn escape_hook(code: i32, msg: u32, vk: u32, overlay: isize) -> (d: HookDecision)
    ensures
        d == (if code == HC_ACTION && (msg == WM_KEYDOWN || msg == WM_SYSKEYDOWN) && vk == VK_ESCAPE
            && overlay != 0 {
            HookDecision::SwallowAndNotify(overlay)
        } else {
            HookDecision::PassOn
        }),
{
    if code == HC_ACTION && (msg == WM_KEYDOWN || msg == WM_SYSKEYDOWN) && vk == VK_ESCAPE && overlay
        != 0 {
        HookDecision::SwallowAndNotify(overlay)
    } else {
        HookDecision::PassOn
    }
}

/// Mouse hook while the pick overlay is open: left-button presses and
/// releases are kept from the windows below; a release also tells the
/// overlay to finish the pick.
pub fn pick_mouse_hook(code: i32, msg: u32, overlay: isize) -> (d: HookDecision)
    ensures
        d == (if code == HC_ACTION && (msg == WM_LBUTTONDOWN || msg == WM_LBUTTONUP) && overlay != 0 {
            if msg == WM_LBUTTONUP {
                HookDecision::SwallowAndNotify(overlay)
            } else {
                HookDecision::Swallow
            }
        } else {
            HookDecision::PassOn
        }),
{
    if code == HC_ACTION && (msg == WM_LBUTTONDOWN || msg == WM_LBUTTONUP) && overlay != 0 {
        if msg == WM_LBUTTONUP {
            HookDecision::SwallowAndNotify(overlay)
        } else {
            HookDecision::Swallow
        }
    } else {
        HookDecision::PassOn
    }
}

/// Whether a GetAsyncKeyState result says the key is down (its top bit).
pub fn escape_pressed(key_state: i16) -> (down: bool)
    ensures
        down == (key_state < 0),
{
    let bits = key_state as u16;
    let down = (bits & 0x8000u16) != 0;
    assert(down == (key_state < 0)) by (bit_vector)
        requires
            bits == key_state as u16,
            down == ((bits & 0x8000u16) != 0),
    ;
    down
}

// ─── Countdown ──────────────────────────────────────────────────────────────

/// The numbers shown by a countdown of `seconds`, one per second: `seconds`
/// down to 1. Empty for a zero delay.
pub fn countdown_steps(seconds: u32) -> (steps: Vec<u32>)
    ensures
        steps@.len() == seconds,
        forall|i: int| 0 <= i < seconds ==> #[trigger] steps@[i] == seconds - i,
{
    let mut steps: Vec<u32> = Vec::new();
    let mut n = seconds;
    while n > 0
        invariant
            n <= seconds,
            steps@.len() == seconds - n,
            forall|i: int| 0 <= i < seconds - n ==> #[trigger] steps@[i] == seconds - i,
        decreases n,
    {
        steps.push(n);
        n = n - 1;
    }
    steps
}

// ─── What the overlays look like ────────────────────────────────────────────

/// A pixel given by row and column lies in the row segments `[c0, c1)` of
/// rows `[r0, r1)` exactly when its row and column are in those ranges,
/// provided the segments stay within a row.
pub proof fn lemma_covered_cell(row: int, col: int, vw: int, r0: int, r1: int, c0: int, c1: int)
    requires
        0 <= col < vw,
        0 <= row,
        0 <= c0,
        c1 <= vw,
    ensures
        covered(row * vw + col, r0, r1, vw, c0, c1) <==> (r0 <= row < r1 && c0 <= col < c1),
{
    let p = row * vw + col;
    if r0 <= row < r1 && c0 <= col < c1 {
        assert(row_start(row, vw) + c0 <= p < row_start(row, vw) + c1);
    }
    if covered(p, r0, r1, vw, c0, c1) {
        let w = choose|w: int| r0 <= w < r1 && row_start(w, vw) + c0 <= p < #[trigger] row_start(w, vw) + c1;
        assert(w == row) by (nonlinear_arith)
            requires
                w * vw + c0 <= row * vw + col < w * vw + c1,
                0 <= col < vw,
                0 <= c0,
                c1 <= vw,
        ;
    }
}

/// The frame of `[l, r) x [t, b)`: its cells within 4 pixels of an edge.
pub open spec fn in_frame(row: int, col: int, l: int, t: int, r: int, b: int) -> bool {
    t <= row < b && l <= col < r && !(t + 4 <= row < b - 4 && l + 4 <= col < r - 4)
}

/// The countdown highlight of an area at least 8 pixels wide and high (in
/// overlay coordinates) is an orange frame 4 pixels wide just inside the
/// area, and transparent everywhere else.
pub proof fn lemma_border_is_frame(vw: int, vh: int, l: int, t: int, r: int, b: int, row: int, col: int)
    requires
        0 <= l,
        r <= vw,
        0 <= t,
        b <= vh,
        r - l >= 8,
        b - t >= 8,
        0 <= row < vh,
        0 <= col < vw,
    ensures
        border_color(row * vw + col, vw, l, t, r, b) == (if in_frame(row, col, l, t, r, b) {
            BORDER_ARGB
        } else {
            CLEAR_ARGB
        }),
{
    lemma_covered_cell(row, col, vw, t, t + 4, l, r);
    lemma_covered_cell(row, col, vw, b - 4, b, l, r);
    lemma_covered_cell(row, col, vw, t + 4, b - 4, l, l + 4);
    lemma_covered_cell(row, col, vw, t + 4, b - 4, r - 4, r);
}

/// The pick overlay around a hovered window at least 8 pixels wide and high
/// (in overlay coordinates): an orange frame 4 pixels wide just inside the
/// window, a see-through hole inside the frame, and the dimming mask
/// everywhere else.
pub proof fn lemma_spotlight_is_frame(vw: int, vh: int, l: int, t: int, r: int, b: int, row: int, col: int)
    requires
        0 <= l,
        r <= vw,
        0 <= t,
        b <= vh,
        r - l >= 8,
        b - t >= 8,
        0 <= row < vh,
        0 <= col < vw,
    ensures
        spotlight_color(row * vw + col, vw, l, t, r, b) == (if in_frame(row, col, l, t, r, b) {
            BORDER_ARGB
        } else if t <= row < b && l <= col < r {
            HOLE_ARGB
        } else {
            MASK_ARGB
        }),
{
    lemma_covered_cell(row, col, vw, t, t + 4, l, r);
    lemma_covered_cell(row, col, vw, b - 4, b, l, r);
    lemma_covered_cell(row, col, vw, t + 4, b - 4, l, l + 4);
    lemma_covered_cell(row, col, vw, t + 4, b - 4, r - 4, r);
    lemma_covered_cell(row, col, vw, t + 4, b - 4, l + 4, r - 4);
}

/// The area `a`, in screen coordinates, lies within the virtual screen at
/// `(vx, vy)` of size `vw x vh` and is at least 8 pixels wide and high.
pub open spec fn framed_area_fits(vx: int, vy: int, vw: int, vh: int, a: Rect) -> bool {
    &&& vx <= a.left && a.right <= vx + vw
    &&& vy <= a.top && a.bottom <= vy + vh
    &&& a.right - a.left >= 8
    &&& a.bottom - a.top >= 8
}

/// The countdown highlight frames the capture area where it is on screen:
/// overlay pixel `(row, col)` shows screen point `(vx + col, vy + row)`, and
/// it is orange exactly when that point lies within 4 pixels inside the
/// area's edges; every other pixel is transparent.
pub proof fn lemma_border_frames_the_area(vx: int, vy: int, vw: int, vh: int, area: Rect, row: int, col: int)
    requires
        framed_area_fits(vx, vy, vw, vh, area),
        0 <= row < vh,
        0 <= col < vw,
    ensures
        border_pixel(row * vw + col, vx, vy, vw, vh, area) == (if in_frame(
            vy + row,
            vx + col,
            area.left as int,
            area.top as int,
            area.right as int,
            area.bottom as int,
        ) {
            BORDER_ARGB
        } else {
            CLEAR_ARGB
        }),
{
    let l = area.left - vx;
    let t = area.top - vy;
    let r = area.right - vx;
    let b = area.bottom - vy;
    assert(dib_edge(area.left as int, vx, vw) == l);
    assert(dib_edge(area.top as int, vy, vh) == t);
    assert(dib_edge(area.right as int, vx, vw) == r);
    assert(dib_edge(area.bottom as int, vy, vh) == b);
    lemma_border_is_frame(vw, vh, l, t, r, b, row, col);
}

/// The pick overlay frames the hovered window where it is on screen:
/// overlay pixel `(row, col)` shows screen point `(vx + col, vy + row)`; it is
/// orange within 4 pixels inside the window's edges, see-through inside that
/// frame, and dimmed outside the window.
pub proof fn lemma_spotlight_frames_the_window(vx: int, vy: int, vw: int, vh: int, wr: Rect, row: int, col: int)
    requires
        framed_area_fits(vx, vy, vw, vh, wr),
        0 <= row < vh,
        0 <= col < vw,
    ensures
        spotlight_pixel(row * vw + col, vx, vy, vw, vh, Some(wr)) == (if in_frame(
            vy + row,
            vx + col,
            wr.left as int,
            wr.top as int,
            wr.right as int,
            wr.bottom as int,
        ) {
            BORDER_ARGB
        } else if wr.top <= vy + row < wr.bottom && wr.left <= vx + col < wr.right {
            HOLE_ARGB
        } else {
            MASK_ARGB
        }),
{
    let l = wr.left - vx;
    let t = wr.top - vy;
    let r = wr.right - vx;
    let b = wr.bottom - vy;
    assert(dib_edge(wr.left as int, vx, vw) == l);
    assert(dib_edge(wr.top as int, vy, vh) == t);
    assert(dib_edge(wr.right as int, vx, vw) == r);
    assert(dib_edge(wr.bottom as int, vy, vh) == b);
    lemma_spotlight_is_frame(vw, vh, l, t, r, b, row, col);
}

} // verus!
