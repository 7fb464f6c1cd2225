//! Annotation tools of the image editor panel, its annotation list with
//! snapshot undo and redo, and the mosaic burned into the saved image. The
//! annotation type itself (shapes with floating-point geometry and colours)
//! is the caller's.
use vstd::prelude::*;
use vstd::arithmetic::div_mod::lemma_fundamental_div_mod_converse;

verus! {

#[derive(Clone, Copy, Debug, PartialEq, Eq, Structural)]
pub enum Tool {
    Select,
    Rect,
    Ellipse,
    Arrow,
    Line,
    Text,
    Mosaic,
}

impl Default for Tool {
    /// The selection tool.
    fn default() -> (t: Tool)
        ensures
            t == Tool::Select,
    {
        Tool::Select
    }
}

/// `b` is an element-by-element clone of `a`.
pub open spec fn clone_of<A: Clone>(a: Seq<A>, b: Seq<A>) -> bool {
    a.len() == b.len() && forall|i: int| 0 <= i < a.len() ==> #[trigger] cloned(a[i], b[i])
}

/// An annotation list with its undo and redo histories, as plain values.
pub struct AnnotationsView<A> {
    pub items: Seq<A>,
    pub undo: Seq<Seq<A>>,
    pub redo: Seq<Seq<A>>,
}

/// `b` is `a` after adding `ann`.
pub open spec fn pushed<A: Clone>(a: AnnotationsView<A>, b: AnnotationsView<A>, ann: A) -> bool {
    &&& b.items == a.items.push(ann)
    &&& b.undo.len() == a.undo.len() + 1
    &&& b.undo.drop_last() == a.undo
    &&& clone_of(a.items, b.undo.last())
    &&& b.redo.len() == 0
}

/// `b` is `a` after an undo.
pub open spec fn undone<A: Clone>(a: AnnotationsView<A>, b: AnnotationsView<A>) -> bool {
    if a.undo.len() == 0 {
        b == a
    } else {
        &&& b.items == a.undo.last()
        &&& b.undo == a.undo.drop_last()
        &&& b.redo.len() == a.redo.len() + 1
        &&& b.redo.drop_last() == a.redo
        &&& clone_of(a.items, b.redo.last())
    }
}

/// `b` is `a` after a redo.
pub open spec fn redone<A: Clone>(a: AnnotationsView<A>, b: AnnotationsView<A>) -> bool {
    if a.redo.len() == 0 {
        b == a
    } else {
        &&& b.items == a.redo.last()
        &&& b.redo == a.redo.drop_last()
        &&& b.undo.len() == a.undo.len() + 1
        &&& b.undo.drop_last() == a.undo
        &&& clone_of(a.items, b.undo.last())
    }
}

/// Undo right after adding an annotation gives back (a clone of) the list
/// from before it and the history from before it.
pub proof fn lemma_undo_after_push<A: Clone>(a: AnnotationsView<A>, b: AnnotationsView<A>, c: AnnotationsView<A>, ann: A)
    requires
        pushed(a, b, ann),
        undone(b, c),
    ensures
        clone_of(a.items, c.items),
        c.undo == a.undo,
        c.redo.len() == 1,
        clone_of(a.items.push(ann), c.redo.last()),
{
}

/// Redo right after an undo gives back (a clone of) the list that was undone,
/// with the undo history as long as before.
pub proof fn lemma_redo_after_undo<A: Clone>(a: AnnotationsView<A>, b: AnnotationsView<A>, c: AnnotationsView<A>)
    requires
        a.undo.len() > 0,
        undone(a, b),
        redone(b, c),
    ensures
        clone_of(a.items, c.items),
        c.redo == a.redo,
        c.undo.len() == a.undo.len(),
        c.undo.drop_last() == a.undo.drop_last(),
{
}

/// Adding an annotation always drops what could be redone.
pub proof fn lemma_push_clears_redo<A: Clone>(a: AnnotationsView<A>, b: AnnotationsView<A>, ann: A)
    requires
        pushed(a, b, ann),
    ensures
        b.redo.len() == 0,
{
}

/// The annotations drawn so far, with snapshots for undo and redo.
pub struct Annotations<A> {
    pub items: Vec<A>,
    undo_stack: Vec<Vec<A>>,
    redo_stack: Vec<Vec<A>>,
}

impl<A> Annotations<A> {
    /// The list and its histories as plain values.
    pub closed spec fn view_all(&self) -> AnnotationsView<A> {
        AnnotationsView { items: self.items@, undo: self.undo_view(), redo: self.redo_view() }
    }

    /// The annotations in force.
    pub closed spec fn items_view(&self) -> Seq<A> {
        self.items@
    }

    /// Earlier annotation lists, oldest first.
    pub closed spec fn undo_view(&self) -> Seq<Seq<A>> {
        self.undo_stack@.map_values(|v: Vec<A>| v@)
    }

    /// Undone annotation lists, the next to redo last.
    pub closed spec fn redo_view(&self) -> Seq<Seq<A>> {
        self.redo_stack@.map_values(|v: Vec<A>| v@)
    }
}

impl<A: Clone> Annotations<A> {
    /// No annotations and no history.
    pub fn new() -> (s: Self)
        ensures
            s.items_view().len() == 0,
            s.undo_view().len() == 0,
            s.redo_view().len() == 0,
    {
        let s = Annotations { items: Vec::new(), undo_stack: Vec::new(), redo_stack: Vec::new() };
        assert(s.undo_view() =~= Seq::<Seq<A>>::empty());
        assert(s.redo_view() =~= Seq::<Seq<A>>::empty());
        s
    }

    /// Adds an annotation: the list before it goes on the undo history, and
    /// the redo history is dropped.
    pub fn push(&mut self, ann: A)
        ensures
            pushed(old(self).view_all(), final(self).view_all(), ann),
    {
        let snapshot = self.items.clone();
        let ghost old_undo = self.undo_stack@;
        self.undo_stack.push(snapshot);
        self.redo_stack.clear();
        self.items.push(ann);
        proof {
            assert(self.undo_view().drop_last() =~= old(self).undo_view());
            assert(self.undo_view().last() == snapshot@);
            assert(self.redo_view() =~= Seq::<Seq<A>>::empty());
        }
    }

    /// Goes back to the list before the last change, keeping the current one
    /// for redo; does nothing without history.
    pub fn undo(&mut self)
        ensures
            undone(old(self).view_all(), final(self).view_all()),
    {
        let ghost pre_undo = self.undo_view();
        match self.undo_stack.pop() {
            Some(prev) => {
                let current = self.items.clone();
                self.redo_stack.push(current);
                self.items = prev;
                proof {
                    assert(self.undo_view() =~= old(self).undo_view().drop_last());
                    assert(prev@ == old(self).undo_view().last());
                    assert(self.redo_view().drop_last() =~= old(self).redo_view());
                    assert(self.redo_view().last() == current@);
                }
            },
            None => {},
        }
    }

    /// Reapplies the last undone change, keeping the current list for undo;
    /// does nothing when nothing was undone.
    pub fn redo(&mut self)
        ensures
            redone(old(self).view_all(), final(self).view_all()),
    {
        match self.redo_stack.pop() {
            Some(next) => {
                let current = self.items.clone();
                self.undo_stack.push(current);
                self.items = next;
                proof {
                    assert(self.redo_view() =~= old(self).redo_view().drop_last());
                    assert(next@ == old(self).redo_view().last());
                    assert(self.undo_view().drop_last() =~= old(self).undo_view());
                    assert(self.undo_view().last() == current@);
                }
            },
            None => {},
        }
    }

    /// Whether there is a change to undo.
    pub fn can_undo(&self) -> (b: bool)
        ensures
            b == (self.undo_view().len() > 0),
    {
        self.undo_stack.len() > 0
    }

    /// Whether there is an undone change to redo.
    pub fn can_redo(&self) -> (b: bool)
        ensures
            b == (self.redo_view().len() > 0),
    {
        self.redo_stack.len() > 0
    }
}

// ─── Mosaic ─────────────────────────────────────────────────────────────────

/// Side of a mosaic block, in pixels.
pub const MOSAIC_BLOCK: u32 = 8;

/// First coordinate of the mosaic block that holds `v`, the blocks being
/// laid from `start` on.
pub open spec fn block_start(v: int, start: int) -> int {
    start + (v - start) / 8 * 8
}

/// Whether pixel `(px, py)` of a `w x h` image is covered by a mosaic over
/// `[x1, x2) x [y1, y2)`: it lies in a block whose first pixel is inside that
/// range (the last blocks run on past the range, up to the image's edge).
pub open spec fn in_mosaic(px: int, py: int, w: int, h: int, x1: int, y1: int, x2: int, y2: int) -> bool {
    &&& x1 <= px < w
    &&& y1 <= py < h
    &&& block_start(px, x1) < x2
    &&& block_start(py, y1) < y2
}

/// Byte `j` of a `w`-pixel-wide RGBA image after the mosaic: a covered pixel
/// takes the colour of its block's first pixel, every other byte stays.
pub open spec fn mosaic_byte(data: Seq<u8>, j: int, w: int, h: int, x1: int, y1: int, x2: int, y2: int) -> u8 {
    let q = j / 4;
    let px = q % w;
    let py = q / w;
    if in_mosaic(px, py, w, h, x1, y1, x2, y2) {
        data[(block_start(py, y1) * w + block_start(px, x1)) * 4 + j % 4]
    } else {
        data[j]
    }
}

/// The first pixel of a block comes no later than any pixel of it.
proof fn lemma_block_source(px: int, py: int, w: int, h: int, sx: int, sy: int)
    requires
        0 <= sx <= px < w,
        0 <= sy <= py < h,
    ensures
        sy * w + sx <= py * w + px,
        py * w + px < w * h,
        sy * w + sx >= 0,
{
    assert(sy * w <= py * w) by (nonlinear_arith)
        requires
            0 <= sy <= py,
            w >= 0,
    ;
    assert(py * w + px < w * h) by (nonlinear_arith)
        requires
            0 <= py < h,
            0 <= px < w,
    ;
    assert(sy * w >= 0) by (nonlinear_arith)
        requires
            sy >= 0,
            w >= 0,
    ;
}

/// A pixel index below `w * h` lies on a row below `h`.
proof fn lemma_row_in_image(q: int, px: int, py: int, w: int, h: int)
    requires
        q == py * w + px,
        0 <= px < w,
        py >= 0,
        q < w * h,
    ensures
        py < h,
{
    if py >= h {
        assert(py * w >= h * w) by (nonlinear_arith)
            requires
                py >= h,
                w >= 0,
        ;
    }
}

/// Burns a mosaic into RGBA pixels of a `w x h` image (four bytes a pixel,
/// row-major): over `[x1, x2) x [y1, y2)`, in 8-pixel blocks laid from
/// `(x1, y1)`, every pixel of a block takes the colour of the block's first
/// pixel. Blocks at the far edges run on past the range, up to the image's
/// edge; nothing outside them changes.
pub fn mosaic(pixels: &mut Vec<u8>, w: u32, h: u32, x1: u32, y1: u32, x2: u32, y2: u32)
    requires
        old(pixels)@.len() == w * h * 4,
    ensures
        final(pixels)@.len() == old(pixels)@.len(),
        forall|j: int|
            0 <= j < old(pixels)@.len() ==> #[trigger] final(pixels)@[j] == mosaic_byte(
                old(pixels)@,
                j,
                w as int,
                h as int,
                x1 as int,
                y1 as int,
                x2 as int,
                y2 as int,
            ),
{
    let ghost orig = pixels@;
    let src = pixels.clone();
    assert(src@ =~= orig);
    let len: usize = pixels.len();
    let n: usize = len / 4;
    assert(n == w * h);
    let mut q: usize = 0;
    let mut px: u32 = 0;
    let mut py: u32 = 0;
    while q < n
        invariant
            src@ == orig,
            orig.len() == w * h * 4,
            len == orig.len(),
            n == w * h,
            pixels@.len() == orig.len(),
            q <= n,
            n > 0 ==> px < w,
            q == py * w + px,
            forall|j: int|
                0 <= j < orig.len() ==> #[trigger] pixels@[j] == (if j < 4 * q {
                    mosaic_byte(orig, j, w as int, h as int, x1 as int, y1 as int, x2 as int, y2 as int)
                } else {
                    orig[j]
                }),
        decreases n - q,
    {
        proof {
            lemma_row_in_image(q as int, px as int, py as int, w as int, h as int);
            lemma_fundamental_div_mod_converse(q as int, w as int, py as int, px as int);
        }
        let paint = x1 <= px && y1 <= py && x1 + (px - x1) / 8 * 8 < x2 && y1 + (py - y1) / 8 * 8 < y2;
        let ghost before = pixels@;
        if paint {
            let sx: u32 = x1 + (px - x1) / 8 * 8;
            let sy: u32 = y1 + (py - y1) / 8 * 8;
            proof {
                lemma_block_source(px as int, py as int, w as int, h as int, sx as int, sy as int);
            }
            let s: usize = (sy as usize) * (w as usize) + sx as usize;
            pixels.set(4 * q, src[4 * s]);
            pixels.set(4 * q + 1, src[4 * s + 1]);
            pixels.set(4 * q + 2, src[4 * s + 2]);
            pixels.set(4 * q + 3, src[4 * s + 3]);
        }
        proof {
            assert forall|j: int| 0 <= j < orig.len() implies #[trigger] pixels@[j] == (if j < 4 * (q + 1) {
                mosaic_byte(orig, j, w as int, h as int, x1 as int, y1 as int, x2 as int, y2 as int)
            } else {
                orig[j]
            }) by {
                if 4 * q <= j < 4 * q + 4 {
                    assert(j / 4 == q as int);
                    assert(j % 4 == j - 4 * q);
                } else {
                    assert(pixels@[j] == before[j]);
                }
            }
        }
        q = q + 1;
        px = px + 1;
        if px == w {
            assert((py + 1) * w == py * w + w) by (nonlinear_arith);
            px = 0;
            py = py + 1;
        }
    }
}

} // verus!
