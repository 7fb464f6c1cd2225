//! The editable canvas of one tab: the captured bitmap, the strokes drawn on
//! it, and an undo history of strokes and crops.
use vstd::prelude::*;
use vstd::arithmetic::div_mod::lemma_fundamental_div_mod_converse;
use crate::capture::screen::ScreenBitmap;
use crate::editor::tool::{Color, Stroke, StrokeView, stroke_fits, moved_stroke};
use crate::geometry::{Rect, clamp_i32, clamp_int};

verus! {

/// One committed stroke with its colour and pen thickness, as plain values.
pub type EntryView = (StrokeView, u32, i32);

/// What an undo step restores.
pub enum UndoView {
    /// Drop the last stroke.
    Stroke,
    /// Put back the bitmap, size and strokes from before a crop.
    Crop { width: int, height: int, base: Seq<u8>, strokes: Seq<EntryView> },
}

/// The canvas as plain values.
pub struct CanvasView {
    pub width: int,
    pub height: int,
    pub base: Seq<u8>,
    pub strokes: Seq<EntryView>,
    pub current: Option<StrokeView>,
    pub tool_color: u32,
    pub tool_thickness: i32,
    pub undo: Seq<UndoView>,
}

pub open spec fn entry_view(e: (Stroke, Color, i32)) -> EntryView {
    (e.0@, e.1.0, e.2)
}

pub open spec fn entries_view(v: Seq<(Stroke, Color, i32)>) -> Seq<EntryView> {
    v.map_values(|e: (Stroke, Color, i32)| entry_view(e))
}

pub open spec fn option_stroke_view(s: Option<Stroke>) -> Option<StrokeView> {
    match s {
        Some(st) => Some(st@),
        None => None,
    }
}

enum UndoOp {
    Stroke,
    Crop { base: ScreenBitmap, width: i32, height: i32, strokes: Vec<(Stroke, Color, i32)> },
}

impl View for UndoOp {
    type V = UndoView;

    closed spec fn view(&self) -> UndoView {
        match self {
            UndoOp::Stroke => UndoView::Stroke,
            UndoOp::Crop { base, width, height, strokes } => UndoView::Crop {
                width: *width as int,
                height: *height as int,
                base: base.data@,
                strokes: entries_view(strokes@),
            },
        }
    }
}

pub struct Canvas {
    pub width: i32,
    pub height: i32,
    base: ScreenBitmap,
    pub strokes: Vec<(Stroke, Color, i32)>,
    pub current: Option<Stroke>,
    pub tool_color: u32,
    pub tool_thickness: i32,
    undo_ops: Vec<UndoOp>,
}

impl View for Canvas {
    type V = CanvasView;

    closed spec fn view(&self) -> CanvasView {
        CanvasView {
            width: self.width as int,
            height: self.height as int,
            base: self.base.data@,
            strokes: entries_view(self.strokes@),
            current: option_stroke_view(self.current),
            tool_color: self.tool_color,
            tool_thickness: self.tool_thickness,
            undo: self.undo_ops@.map_values(|u: UndoOp| u@),
        }
    }
}

/// A bitmap of `width x height` whose byte count fits the `i32` arithmetic
/// that sizes capture buffers.
pub open spec fn sized_bitmap(width: int, height: int, bytes: Seq<u8>) -> bool {
    &&& width >= 0
    &&& height >= 0
    &&& width * height * 4 <= i32::MAX
    &&& bytes.len() == width * height * 4
}

/// Every crop snapshot in the history holds a well-sized bitmap.
pub open spec fn undo_wf(undo: Seq<UndoView>) -> bool {
    forall|i: int|
        0 <= i < undo.len() ==> match #[trigger] undo[i] {
            UndoView::Stroke => true,
            UndoView::Crop { width, height, base, .. } => sized_bitmap(width, height, base),
        }
}

impl CanvasView {
    pub open spec fn wf(self) -> bool {
        sized_bitmap(self.width, self.height, self.base) && undo_wf(self.undo)
    }
}

/// A new canvas over a `width x height` bitmap: no strokes, nothing in
/// progress, red ink (0x000000FF) 3 pixels wide, and an empty history.
pub open spec fn fresh_canvas(width: int, height: int, base: Seq<u8>) -> CanvasView {
    CanvasView {
        width,
        height,
        base,
        strokes: Seq::empty(),
        current: None,
        tool_color: 0x0000_00FF,
        tool_thickness: 3,
        undo: Seq::empty(),
    }
}

/// The crop rectangle `r` clamped to a `width x height` canvas: left, top,
/// width and height of the part kept.
pub open spec fn crop_area(width: int, height: int, r: Rect) -> (int, int, int, int) {
    let x = clamp_int(r.left as int, 0, width);
    let y = clamp_int(r.top as int, 0, height);
    let w = clamp_int(r.right as int, 0, width) - x;
    let h = clamp_int(r.bottom as int, 0, height) - y;
    (x, y, if w > 0 { w } else { 0 }, if h > 0 { h } else { 0 })
}

/// The `w x h` block at `(x, y)` of a BGRA bitmap `stride` pixels wide.
pub open spec fn crop_bytes(data: Seq<u8>, stride: int, x: int, y: int, w: int, h: int) -> Seq<u8> {
    Seq::new(
        (w * h * 4) as nat,
        |i: int| data[((y + i / (w * 4)) * stride + x) * 4 + i % (w * 4)],
    )
}

/// Strokes moved by `(dx, dy)`, colours and thicknesses kept.
pub open spec fn moved_entries(s: Seq<EntryView>, dx: int, dy: int) -> Seq<EntryView> {
    s.map_values(|e: EntryView| (moved_stroke(e.0, dx, dy), e.1, e.2))
}

/// A crop by `r` keeps every stroke coordinate within `i32`.
pub open spec fn crop_fits(c: CanvasView, r: Rect) -> bool {
    let (x, y, w, h) = crop_area(c.width, c.height, r);
    w > 0 && h > 0 ==> forall|i: int| 0 <= i < c.strokes.len() ==> #[trigger] stroke_fits(c.strokes[i].0, -x, -y)
}

/// The canvas after cropping to `r`: nothing happens when the clamped area
/// is empty; otherwise the bitmap is cut down, the strokes move with it, the
/// in-progress stroke is dropped, and the prior state goes on the undo history.
pub open spec fn spec_crop(c: CanvasView, r: Rect) -> CanvasView {
    let (x, y, w, h) = crop_area(c.width, c.height, r);
    if w <= 0 || h <= 0 {
        c
    } else {
        CanvasView {
            width: w,
            height: h,
            base: crop_bytes(c.base, c.width, x, y, w, h),
            strokes: moved_entries(c.strokes, -x, -y),
            current: None,
            undo: c.undo.push(
                UndoView::Crop { width: c.width, height: c.height, base: c.base, strokes: c.strokes },
            ),
            ..c
        }
    }
}

/// The canvas after committing a stroke.
pub open spec fn spec_push_stroke(c: CanvasView, e: EntryView) -> CanvasView {
    CanvasView { strokes: c.strokes.push(e), undo: c.undo.push(UndoView::Stroke), ..c }
}

/// The canvas after one undo step.
pub open spec fn spec_undo(c: CanvasView) -> CanvasView {
    if c.undo.len() == 0 {
        c
    } else {
        match c.undo.last() {
            UndoView::Stroke => CanvasView {
                strokes: if c.strokes.len() > 0 { c.strokes.drop_last() } else { c.strokes },
                undo: c.undo.drop_last(),
                ..c
            },
            UndoView::Crop { width, height, base, strokes } => CanvasView {
                width,
                height,
                base,
                strokes,
                undo: c.undo.drop_last(),
                ..c
            },
        }
    }
}

proof fn lemma_entries_push(v: Seq<(Stroke, Color, i32)>, e: (Stroke, Color, i32))
    ensures
        entries_view(v.push(e)) == entries_view(v).push(entry_view(e)),
{
    assert(entries_view(v.push(e)) =~= entries_view(v).push(entry_view(e)));
}

proof fn lemma_entries_drop_last(v: Seq<(Stroke, Color, i32)>)
    requires
        v.len() > 0,
    ensures
        entries_view(v.drop_last()) == entries_view(v).drop_last(),
{
    assert(entries_view(v.drop_last()) =~= entries_view(v).drop_last());
}

/// Bytes of rows `y .. y + h` and columns `x .. x + w` of a `stride`-wide
/// bitmap of `height` rows lie inside it.
proof fn lemma_crop_index(stride: int, height: int, x: int, y: int, w: int, h: int, q: int, m: int)
    requires
        0 <= x,
        x + w <= stride,
        0 <= y,
        y + h <= height,
        0 <= q < h,
        0 <= m < w * 4,
    ensures
        0 <= ((y + q) * stride + x) * 4 + m < stride * height * 4,
{
    assert(0 <= ((y + q) * stride + x) * 4 + m < stride * height * 4) by (nonlinear_arith)
        requires
            0 <= x,
            x + w <= stride,
            0 <= y,
            y + h <= height,
            0 <= q < h,
            0 <= m < w * 4,
    ;
}


/// The `w x h` block at `(x, y)` of a BGRA bitmap `width` pixels wide and
/// `height` rows high.
fn crop_pixels(data: &Vec<u8>, width: i32, height: i32, x: i32, y: i32, w: i32, h: i32) -> (out: Vec<u8>)
    requires
        sized_bitmap(width as int, height as int, data@),
        0 <= x,
        0 < w,
        x + w <= width,
        0 <= y,
        0 < h,
        y + h <= height,
    ensures
        out@ == crop_bytes(data@, width as int, x as int, y as int, w as int, h as int),
        out@.len() == w * h * 4,
{
    let ghost target = crop_bytes(data@, width as int, x as int, y as int, w as int, h as int);
    proof {
        assert(w * h * 4 == h * (w * 4)) by (nonlinear_arith);
        assert(w * h * 4 <= width * height * 4) by (nonlinear_arith)
            requires
                0 < w <= width,
                0 < h <= height,
        ;
        assert(w * 4 <= w * h * 4) by (nonlinear_arith)
            requires
                0 < w,
                0 < h,
        ;
    }
    let stride: usize = (w as usize) * 4;
    let hh: usize = h as usize;
    let ww: usize = width as usize;
    let xx: usize = x as usize;
    let yy: usize = y as usize;
    let mut out: Vec<u8> = Vec::new();
    let mut row: usize = 0;
    while row < hh
        invariant
            stride == w * 4,
            hh == h,
            ww == width,
            xx == x,
            yy == y,
            0 <= x,
            0 < w,
            x + w <= width,
            0 <= y,
            0 < h,
            y + h <= height,
            sized_bitmap(width as int, height as int, data@),
            target == crop_bytes(data@, width as int, x as int, y as int, w as int, h as int),
            target.len() == hh * stride,
            row <= hh,
            out@ == target.subrange(0, (row * stride) as int),
        decreases hh - row,
    {
        proof {
            assert(row * stride + stride <= hh * stride) by (nonlinear_arith)
                requires
                    row < hh,
            ;
            lemma_crop_index(width as int, height as int, x as int, y as int, w as int, h as int, row as int, 0);
        }
        let src: usize = ((yy + row) * ww + xx) * 4;
        let mut k: usize = 0;
        while k < stride
            invariant
                stride == w * 4,
                hh == h,
                ww == width,
                xx == x,
                yy == y,
                0 <= x,
                0 < w,
                x + w <= width,
                0 <= y,
                0 < h,
                y + h <= height,
                row < hh,
                sized_bitmap(width as int, height as int, data@),
                target == crop_bytes(data@, width as int, x as int, y as int, w as int, h as int),
                target.len() == hh * stride,
                row * stride + stride <= hh * stride,
                src == ((y + row) * width + x) * 4,
                k <= stride,
                out@ == target.subrange(0, row * stride + k),
            decreases stride - k,
        {
            proof {
                lemma_crop_index(width as int, height as int, x as int, y as int, w as int, h as int, row as int, k as int);
                let i = row * stride + k;
                lemma_fundamental_div_mod_converse(i, w * 4, row as int, k as int);
                assert(target[i] == data@[((y + row) * width + x) * 4 + k]);
                assert(target.subrange(0, i + 1) =~= target.subrange(0, i).push(target[i]));
            }
            out.push(data[src + k]);
            k = k + 1;
        }
        proof {
            assert((row + 1) * stride == row * stride + stride) by (nonlinear_arith);
        }
        row = row + 1;
    }
    assert(out@ =~= target);
    out
}

/// Copies of the committed strokes.
fn copy_entries(v: &Vec<(Stroke, Color, i32)>) -> (c: Vec<(Stroke, Color, i32)>)
    ensures
        entries_view(c@) == entries_view(v@),
{
    let mut c: Vec<(Stroke, Color, i32)> = Vec::new();
    let mut i: usize = 0;
    while i < v.len()
        invariant
            i <= v@.len(),
            entries_view(c@) == entries_view(v@.subrange(0, i as int)),
        decreases v@.len() - i,
    {
        let e = &v[i];
        let s = e.0.duplicate();
        let ghost ce = c@;
        c.push((s, e.1, e.2));
        proof {
            lemma_entries_push(ce, (s, e.1, e.2));
            assert(v@.subrange(0, i + 1) =~= v@.subrange(0, i as int).push(v@[i as int]));
            lemma_entries_push(v@.subrange(0, i as int), v@[i as int]);
        }
        i = i + 1;
    }
    assert(v@.subrange(0, v@.len() as int) =~= v@);
    c
}

/// The committed strokes moved by `(dx, dy)`.
fn moved_entries_vec(v: &Vec<(Stroke, Color, i32)>, dx: i32, dy: i32) -> (c: Vec<(Stroke, Color, i32)>)
    requires
        forall|i: int| 0 <= i < v@.len() ==> #[trigger] stroke_fits(entries_view(v@)[i].0, dx as int, dy as int),
    ensures
        entries_view(c@) == moved_entries(entries_view(v@), dx as int, dy as int),
{
    let mut c: Vec<(Stroke, Color, i32)> = Vec::new();
    let mut i: usize = 0;
    while i < v.len()
        invariant
            i <= v@.len(),
            forall|j: int| 0 <= j < v@.len() ==> #[trigger] stroke_fits(entries_view(v@)[j].0, dx as int, dy as int),
            entries_view(c@) == moved_entries(entries_view(v@.subrange(0, i as int)), dx as int, dy as int),
        decreases v@.len() - i,
    {
        let e = &v[i];
        proof {
            assert(entries_view(v@)[i as int].0 == e.0@);
        }
        let s = e.0.translated(dx, dy);
        let ghost ce = c@;
        c.push((s, e.1, e.2));
        proof {
            lemma_entries_push(ce, (s, e.1, e.2));
            assert(v@.subrange(0, i + 1) =~= v@.subrange(0, i as int).push(v@[i as int]));
            lemma_entries_push(v@.subrange(0, i as int), v@[i as int]);
            let pre = entries_view(v@.subrange(0, i as int));
            assert(moved_entries(pre.push(entry_view(v@[i as int])), dx as int, dy as int) =~= moved_entries(
                pre,
                dx as int,
                dy as int,
            ).push((moved_stroke(e.0@, dx as int, dy as int), e.1.0, e.2)));
        }
        i = i + 1;
    }
    assert(v@.subrange(0, v@.len() as int) =~= v@);
    c
}

impl Canvas {
    pub closed spec fn wf(&self) -> bool {
        &&& self@.wf()
        &&& self.base.width == self.width
        &&& self.base.height == self.height
        &&& forall|i: int|
            0 <= i < self.undo_ops@.len() ==> match #[trigger] self.undo_ops@[i] {
                UndoOp::Stroke => true,
                UndoOp::Crop { base, width, height, .. } => base.width == width && base.height
                    == height,
            }
    }

    /// A canvas over a captured bitmap, with no strokes, red ink 3 pixels wide.
    pub fn new(base: ScreenBitmap) -> (c: Canvas)
        requires
            sized_bitmap(base.width as int, base.height as int, base.data@),
        ensures
            c.wf(),
            c@ == fresh_canvas(base.width as int, base.height as int, base.data@),
    {
        let w = base.width;
        let h = base.height;
        let c = Canvas {
            width: w,
            height: h,
            base,
            strokes: Vec::new(),
            current: None,
            tool_color: 0x0000_00FF,
            tool_thickness: 3,
            undo_ops: Vec::new(),
        };
        assert(c@.strokes =~= Seq::<EntryView>::empty());
        assert(c@.undo =~= Seq::<UndoView>::empty());
        c
    }

    /// A well-formed canvas has a well-formed view: a bitmap of its size and
    /// well-sized crop snapshots.
    pub proof fn lemma_view_wf(&self)
        requires
            self.wf(),
        ensures
            self@.wf(),
    {
    }

    /// Replaces the in-progress stroke.
    pub fn set_current(&mut self, s: Option<Stroke>)
        requires
            old(self).wf(),
        ensures
            final(self).wf(),
            final(self)@ == (CanvasView { current: option_stroke_view(s), ..old(self)@ }),
    {
        self.current = s;
    }

    /// Takes the in-progress stroke out, leaving none.
    pub fn take_current(&mut self) -> (s: Option<Stroke>)
        requires
            old(self).wf(),
        ensures
            final(self).wf(),
            option_stroke_view(s) == old(self)@.current,
            final(self)@ == (CanvasView { current: None, ..old(self)@ }),
    {
        let s = self.current.take();
        s
    }

    /// The canvas size (width, height).
    pub fn size(&self) -> (r: (i32, i32))
        ensures
            r.0 == self@.width,
            r.1 == self@.height,
    {
        (self.width, self.height)
    }

    /// Commits `stroke` in the current ink colour and thickness.
    pub fn commit(&mut self, stroke: Stroke)
        requires
            old(self).wf(),
        ensures
            final(self).wf(),
            final(self)@ == spec_push_stroke(
                old(self)@,
                (stroke@, old(self)@.tool_color, old(self)@.tool_thickness),
            ),
    {
        let color = self.tool_color;
        let thickness = self.tool_thickness;
        self.push_stroke(stroke, Color(color), thickness);
    }

    /// Sets the ink colour of later strokes.
    pub fn set_tool_color(&mut self, color: u32)
        requires
            old(self).wf(),
        ensures
            final(self).wf(),
            final(self)@ == (CanvasView { tool_color: color, ..old(self)@ }),
    {
        self.tool_color = color;
    }

    /// The captured bitmap under the strokes.
    pub fn base(&self) -> (b: &ScreenBitmap)
        requires
            self.wf(),
        ensures
            b.width == self@.width,
            b.height == self@.height,
            b.data@ == self@.base,
    {
        &self.base
    }

    /// Commits a stroke and records it for undo.
    pub fn push_stroke(&mut self, stroke: Stroke, color: Color, thickness: i32)
        requires
            old(self).wf(),
        ensures
            final(self).wf(),
            final(self)@ == spec_push_stroke(old(self)@, (stroke@, color.0, thickness)),
    {
        let ghost e = (stroke, color, thickness);
        self.strokes.push((stroke, color, thickness));
        self.undo_ops.push(UndoOp::Stroke);
        proof {
            lemma_entries_push(old(self).strokes@, e);
            assert(self.undo_ops@.map_values(|u: UndoOp| u@) =~= old(self)@.undo.push(UndoView::Stroke));
            assert forall|i: int| 0 <= i < self@.undo.len() implies match #[trigger] self@.undo[i] {
                UndoView::Stroke => true,
                UndoView::Crop { width, height, base, .. } => sized_bitmap(width, height, base),
            } by {
                if i < old(self)@.undo.len() {
                    assert(self@.undo[i] == old(self)@.undo[i]);
                }
            }
            assert forall|i: int| 0 <= i < self.undo_ops@.len() implies match #[trigger] self.undo_ops@[i] {
                UndoOp::Stroke => true,
                UndoOp::Crop { base, width, height, .. } => base.width == width && base.height
                    == height,
            } by {
                if i < old(self).undo_ops@.len() {
                    assert(self.undo_ops@[i] == old(self).undo_ops@[i]);
                }
            }
        }
    }

    /// Undoes the last stroke or the last crop; does nothing with an empty history.
    pub fn undo(&mut self)
        requires
            old(self).wf(),
        ensures
            final(self).wf(),
            final(self)@ == spec_undo(old(self)@),
    {
        let ghost pre = self@;
        match self.undo_ops.pop() {
            Some(UndoOp::Stroke) => {
                proof {
                    assert(self.undo_ops@.map_values(|u: UndoOp| u@) =~= pre.undo.drop_last());
                }
                if self.strokes.len() > 0 {
                    proof {
                        lemma_entries_drop_last(self.strokes@);
                    }
                }
                self.strokes.pop();
            },
            Some(UndoOp::Crop { base, width, height, strokes }) => {
                proof {
                    assert(self.undo_ops@.map_values(|u: UndoOp| u@) =~= pre.undo.drop_last());
                    let k = old(self).undo_ops@.len() - 1;
                    assert(old(self).undo_ops@[k] == UndoOp::Crop { base, width, height, strokes });
                    assert(pre.undo[k] == old(self).undo_ops@[k]@);
                    assert(pre.undo[pre.undo.len() - 1] == pre.undo.last());
                }
                self.base = base;
                self.width = width;
                self.height = height;
                self.strokes = strokes;
            },
            None => {},
        }
        proof {
            assert forall|i: int| 0 <= i < self@.undo.len() implies match #[trigger] self@.undo[i] {
                UndoView::Stroke => true,
                UndoView::Crop { width, height, base, .. } => sized_bitmap(width, height, base),
            } by {
                assert(self@.undo[i] == pre.undo[i]);
            }
            assert forall|i: int| 0 <= i < self.undo_ops@.len() implies match #[trigger] self.undo_ops@[i] {
                UndoOp::Stroke => true,
                UndoOp::Crop { base, width, height, .. } => base.width == width && base.height
                    == height,
            } by {
                assert(self.undo_ops@[i] == old(self).undo_ops@[i]);
            }
        }
    }

    /// True when cropping to `r` keeps every stroke coordinate within `i32`
    /// (the precondition of `crop`).
    pub fn can_crop(&self, r: Rect) -> (b: bool)
        requires
            self.wf(),
        ensures
            b == crop_fits(self@, r),
    {
        let x = clamp_i32(r.left, 0, self.width);
        let y = clamp_i32(r.top, 0, self.height);
        let right = clamp_i32(r.right, 0, self.width);
        let bottom = clamp_i32(r.bottom, 0, self.height);
        if right - x <= 0 || bottom - y <= 0 {
            return true;
        }
        let mut i: usize = 0;
        while i < self.strokes.len()
            invariant
                self.wf(),
                i <= self.strokes@.len(),
                x == clamp_int(r.left as int, 0, self@.width),
                y == clamp_int(r.top as int, 0, self@.height),
                right == clamp_int(r.right as int, 0, self@.width),
                bottom == clamp_int(r.bottom as int, 0, self@.height),
                right - x > 0,
                bottom - y > 0,
                forall|j: int| 0 <= j < i ==> #[trigger] stroke_fits(self@.strokes[j].0, -x, -y),
            decreases self.strokes@.len() - i,
        {
            proof {
                assert(self@.strokes[i as int].0 == self.strokes@[i as int].0@);
            }
            if !self.strokes[i].0.can_translate(-x, -y) {
                proof {
                    let (cx, cy, cw, ch) = crop_area(self@.width, self@.height, r);
                    assert(cx == x && cy == y && cw > 0 && ch > 0);
                    assert(!stroke_fits(self@.strokes[i as int].0, -x, -y));
                }
                return false;
            }
            i = i + 1;
        }
        true
    }

    /// Crops the canvas to `r` (clamped to the canvas): the bitmap is cut
    /// down, every stroke moves with it, the in-progress stroke is dropped,
    /// and the state before the crop is recorded for undo. An empty clamped
    /// area leaves the canvas unchanged.
    pub fn crop(&mut self, r: Rect)
        requires
            old(self).wf(),
            crop_fits(old(self)@, r),
        ensures
            final(self).wf(),
            final(self)@ == spec_crop(old(self)@, r),
    {
        let x = clamp_i32(r.left, 0, self.width);
        let y = clamp_i32(r.top, 0, self.height);
        let right = clamp_i32(r.right, 0, self.width);
        let bottom = clamp_i32(r.bottom, 0, self.height);
        let w = if right - x > 0 { right - x } else { 0 };
        let h = if bottom - y > 0 { bottom - y } else { 0 };
        if w <= 0 || h <= 0 {
            return;
        }
        let ghost pre = self@;
        let snapshot = UndoOp::Crop {
            base: self.base.duplicate(),
            width: self.width,
            height: self.height,
            strokes: copy_entries(&self.strokes),
        };
        let new_data = crop_pixels(&self.base.data, self.width, self.height, x, y, w, h);
        proof {
            assert(w * h * 4 <= pre.width * pre.height * 4) by (nonlinear_arith)
                requires
                    0 < w <= pre.width,
                    0 < h <= pre.height,
            ;
            assert forall|i: int| 0 <= i < self.strokes@.len() implies #[trigger] stroke_fits(
                entries_view(self.strokes@)[i].0,
                -x as int,
                -y as int,
            ) by {
                assert(entries_view(self.strokes@)[i] == pre.strokes[i]);
                assert(stroke_fits(pre.strokes[i].0, -x, -y));
            }
        }
        let moved = moved_entries_vec(&self.strokes, -x, -y);
        self.base = ScreenBitmap { width: w, height: h, data: new_data };
        self.width = w;
        self.height = h;
        self.strokes = moved;
        self.current = None;
        let ghost ops = self.undo_ops@;
        self.undo_ops.push(snapshot);
        proof {
            assert(self.undo_ops@.map_values(|u: UndoOp| u@) =~= pre.undo.push(
                UndoView::Crop { width: pre.width, height: pre.height, base: pre.base, strokes: pre.strokes },
            )) by {
                assert(ops.map_values(|u: UndoOp| u@) == pre.undo);
            }
            assert forall|i: int| 0 <= i < self@.undo.len() implies match #[trigger] self@.undo[i] {
                UndoView::Stroke => true,
                UndoView::Crop { width, height, base, .. } => sized_bitmap(width, height, base),
            } by {
                if i < pre.undo.len() {
                    assert(self@.undo[i] == pre.undo[i]);
                }
            }
            assert forall|i: int| 0 <= i < self.undo_ops@.len() implies match #[trigger] self.undo_ops@[i] {
                UndoOp::Stroke => true,
                UndoOp::Crop { base, width, height, .. } => base.width == width && base.height
                    == height,
            } by {
                if i < ops.len() {
                    assert(self.undo_ops@[i] == old(self).undo_ops@[i]);
                }
            }
        }
    }
}

/// Undo right after committing a stroke gives back the canvas as it was.
pub proof fn lemma_undo_push_stroke(c: CanvasView, e: EntryView)
    ensures
        spec_undo(spec_push_stroke(c, e)) == c,
{
    let p = spec_push_stroke(c, e);
    assert(p.strokes.drop_last() =~= c.strokes);
    assert(p.undo.drop_last() =~= c.undo);
}

/// Undo right after a crop gives back the bitmap, size and strokes from
/// before it; only the in-progress stroke, which the crop discarded, stays gone.
pub proof fn lemma_undo_crop(c: CanvasView, r: Rect)
    requires
        crop_area(c.width, c.height, r).2 > 0,
        crop_area(c.width, c.height, r).3 > 0,
    ensures
        spec_undo(spec_crop(c, r)) == (CanvasView { current: None, ..c }),
{
    let p = spec_crop(c, r);
    assert(p.undo.drop_last() =~= c.undo);
}

/// A crop keeps the pixel at `(col, row)` of the kept area: byte `k` of that
/// pixel after the crop is byte `k` of pixel `(x + col, y + row)` before it.
pub proof fn lemma_crop_keeps_pixel(c: CanvasView, r: Rect, row: int, col: int, k: int)
    requires
        c.wf(),
        crop_area(c.width, c.height, r).2 > 0,
        crop_area(c.width, c.height, r).3 > 0,
        0 <= row < crop_area(c.width, c.height, r).3,
        0 <= col < crop_area(c.width, c.height, r).2,
        0 <= k < 4,
    ensures
        ({
            let (x, y, w, h) = crop_area(c.width, c.height, r);
            spec_crop(c, r).base[(row * w + col) * 4 + k] == c.base[((y + row) * c.width + x + col) * 4 + k]
        }),
{
    let (x, y, w, h) = crop_area(c.width, c.height, r);
    let i = (row * w + col) * 4 + k;
    assert(i == row * (w * 4) + (col * 4 + k)) by (nonlinear_arith)
        requires
            i == (row * w + col) * 4 + k,
    ;
    assert(0 <= col * 4 + k < w * 4);
    lemma_fundamental_div_mod_converse(i, w * 4, row, col * 4 + k);
    assert(i < w * h * 4) by (nonlinear_arith)
        requires
            i == row * (w * 4) + (col * 4 + k),
            0 <= col * 4 + k < w * 4,
            0 <= row < h,
    ;
    assert(((y + row) * c.width + x) * 4 + (col * 4 + k) == ((y + row) * c.width + x + col) * 4 + k) by (nonlinear_arith);
}

} // verus!
