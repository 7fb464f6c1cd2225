//! Drawing tools and the strokes they leave on a canvas.
use vstd::prelude::*;
use crate::geometry::{Point, Rect};

verus! {

#[derive(Clone, Copy, Debug, PartialEq, Eq, Structural)]
pub enum Tool {
    Pen,
    Arrow,
    Rect,
    Text,
    Crop,
}

/// A committed or in-progress annotation, in canvas coordinates.
#[derive(Clone, Debug)]
pub enum Stroke {
    Pen { points: Vec<Point> },
    Arrow { from: Point, to: Point },
    Rect { r: Rect },
    Text { pos: Point, text: String },
}

/// A colour as 0x00BBGGRR.
#[derive(Clone, Copy, Debug)]
pub struct Color(pub u32);

/// What a stroke is, as plain values.
pub enum StrokeView {
    Pen(Seq<Point>),
    Arrow(Point, Point),
    Rect(Rect),
    Text(Point, Seq<char>),
}

impl View for Stroke {
    type V = StrokeView;

    open spec fn view(&self) -> StrokeView {
        match self {
            Stroke::Pen { points } => StrokeView::Pen(points@),
            Stroke::Arrow { from, to } => StrokeView::Arrow(*from, *to),
            Stroke::Rect { r } => StrokeView::Rect(*r),
            Stroke::Text { pos, text } => StrokeView::Text(*pos, text@),
        }
    }
}

pub open spec fn in_i32(v: int) -> bool {
    i32::MIN <= v <= i32::MAX
}

pub open spec fn point_fits(p: Point, dx: int, dy: int) -> bool {
    in_i32(p.x + dx) && in_i32(p.y + dy)
}

pub open spec fn moved_point(p: Point, dx: int, dy: int) -> Point {
    Point { x: (p.x + dx) as i32, y: (p.y + dy) as i32 }
}

pub open spec fn points_fit(ps: Seq<Point>, dx: int, dy: int) -> bool {
    forall|i: int| 0 <= i < ps.len() ==> #[trigger] point_fits(ps[i], dx, dy)
}

/// Every coordinate of the stroke stays an `i32` when moved by `(dx, dy)`.
pub open spec fn stroke_fits(s: StrokeView, dx: int, dy: int) -> bool {
    match s {
        StrokeView::Pen(ps) => points_fit(ps, dx, dy),
        StrokeView::Arrow(a, b) => point_fits(a, dx, dy) && point_fits(b, dx, dy),
        StrokeView::Rect(r) => in_i32(r.left + dx) && in_i32(r.right + dx) && in_i32(r.top + dy)
            && in_i32(r.bottom + dy),
        StrokeView::Text(p, _) => point_fits(p, dx, dy),
    }
}

/// The stroke moved by `(dx, dy)`.
pub open spec fn moved_stroke(s: StrokeView, dx: int, dy: int) -> StrokeView {
    match s {
        StrokeView::Pen(ps) => StrokeView::Pen(ps.map_values(|p: Point| moved_point(p, dx, dy))),
        StrokeView::Arrow(a, b) => StrokeView::Arrow(moved_point(a, dx, dy), moved_point(b, dx, dy)),
        StrokeView::Rect(r) => StrokeView::Rect(
            Rect {
                left: (r.left + dx) as i32,
                top: (r.top + dy) as i32,
                right: (r.right + dx) as i32,
                bottom: (r.bottom + dy) as i32,
            },
        ),
        StrokeView::Text(p, t) => StrokeView::Text(moved_point(p, dx, dy), t),
    }
}

fn move_point(p: Point, dx: i32, dy: i32) -> (q: Point)
    requires
        point_fits(p, dx as int, dy as int),
    ensures
        q == moved_point(p, dx as int, dy as int),
{
    Point { x: p.x + dx, y: p.y + dy }
}

impl Stroke {
    /// A copy of the stroke.
    pub fn duplicate(&self) -> (c: Stroke)
        ensures
            c@ == self@,
    {
        match self {
            Stroke::Pen { points } => {
                let mut copy: Vec<Point> = Vec::new();
                let mut i: usize = 0;
                while i < points.len()
                    invariant
                        i <= points@.len(),
                        copy@ == points@.subrange(0, i as int),
                    decreases points@.len() - i,
                {
                    copy.push(points[i]);
                    i = i + 1;
                }
                assert(copy@ =~= points@);
                Stroke::Pen { points: copy }
            },
            Stroke::Arrow { from, to } => Stroke::Arrow { from: *from, to: *to },
            Stroke::Rect { r } => Stroke::Rect { r: *r },
            Stroke::Text { pos, text } => Stroke::Text { pos: *pos, text: text.clone() },
        }
    }

    /// True when `translate(dx, dy)` keeps every coordinate within `i32`.
    pub fn can_translate(&self, dx: i32, dy: i32) -> (b: bool)
        ensures
            b == stroke_fits(self@, dx as int, dy as int),
    {
        match self {
            Stroke::Pen { points } => {
                let mut i: usize = 0;
                while i < points.len()
                    invariant
                        i <= points@.len(),
                        self@ == StrokeView::Pen(points@),
                        forall|j: int| 0 <= j < i ==> #[trigger] point_fits(points@[j], dx as int, dy as int),
                    decreases points@.len() - i,
                {
                    let p = points[i];
                    let fits = fits_i32(p.x as i64 + dx as i64) && fits_i32(p.y as i64 + dy as i64);
                    if !fits {
                        proof {
                            let ps = points@;
                            assert(!point_fits(ps[i as int], dx as int, dy as int));
                        }
                        return false;
                    }
                    i = i + 1;
                }
                true
            },
            Stroke::Arrow { from, to } => {
                fits_i32(from.x as i64 + dx as i64) && fits_i32(from.y as i64 + dy as i64)
                    && fits_i32(to.x as i64 + dx as i64) && fits_i32(to.y as i64 + dy as i64)
            },
            Stroke::Rect { r } => {
                fits_i32(r.left as i64 + dx as i64) && fits_i32(r.right as i64 + dx as i64)
                    && fits_i32(r.top as i64 + dy as i64) && fits_i32(r.bottom as i64 + dy as i64)
            },
            Stroke::Text { pos, .. } => {
                fits_i32(pos.x as i64 + dx as i64) && fits_i32(pos.y as i64 + dy as i64)
            },
        }
    }

    /// The stroke moved by `(dx, dy)`.
    pub fn translated(&self, dx: i32, dy: i32) -> (m: Stroke)
        requires
            stroke_fits(self@, dx as int, dy as int),
        ensures
            m@ == moved_stroke(self@, dx as int, dy as int),
    {
        match self {
            Stroke::Pen { points } => {
                let mut moved: Vec<Point> = Vec::new();
                let mut i: usize = 0;
                while i < points.len()
                    invariant
                        i <= points@.len(),
                        forall|j: int| 0 <= j < points@.len() ==> #[trigger] point_fits(points@[j], dx as int, dy as int),
                        moved@ == points@.subrange(0, i as int).map_values(
                            |p: Point| moved_point(p, dx as int, dy as int),
                        ),
                    decreases points@.len() - i,
                {
                    let q = move_point(points[i], dx, dy);
                    moved.push(q);
                    proof {
                        assert(points@.subrange(0, i + 1).map_values(
                            |p: Point| moved_point(p, dx as int, dy as int),
                        ) =~= points@.subrange(0, i as int).map_values(
                            |p: Point| moved_point(p, dx as int, dy as int),
                        ).push(q));
                    }
                    i = i + 1;
                }
                assert(points@.subrange(0, points@.len() as int) =~= points@);
                Stroke::Pen { points: moved }
            },
            Stroke::Arrow { from, to } => Stroke::Arrow {
                from: move_point(*from, dx, dy),
                to: move_point(*to, dx, dy),
            },
            Stroke::Rect { r } => Stroke::Rect {
                r: Rect {
                    left: r.left + dx,
                    top: r.top + dy,
                    right: r.right + dx,
                    bottom: r.bottom + dy,
                },
            },
            Stroke::Text { pos, text } => Stroke::Text {
                pos: move_point(*pos, dx, dy),
                text: text.clone(),
            },
        }
    }

    /// Moves every coordinate of the stroke by `(dx, dy)`; used after a crop.
    pub fn translate(&mut self, dx: i32, dy: i32)
        requires
            stroke_fits(old(self)@, dx as int, dy as int),
        ensures
            final(self)@ == moved_stroke(old(self)@, dx as int, dy as int),
    {
        let m = self.translated(dx, dy);
        *self = m;
    }
}

fn fits_i32(v: i64) -> (b: bool)
    ensures
        b == in_i32(v as int),
{
    v >= i32::MIN as i64 && v <= i32::MAX as i64
}

} // verus!
