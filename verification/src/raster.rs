//! Filling row segments of a row-major pixel buffer.
use vstd::prelude::*;

verus! {

/// First index of row `row` in a row-major buffer `vw` pixels wide.
pub open spec fn row_start(row: int, vw: int) -> int {
    row * vw
}

/// Index `p` lies in one of the segments `[row * vw + c0, row * vw + c1)`
/// for a row in `[r0, r1)`. Segments wider than a row run on into the next.
pub open spec fn covered(p: int, r0: int, r1: int, vw: int, c0: int, c1: int) -> bool {
    exists|row: int| r0 <= row < r1 && row_start(row, vw) + c0 <= p < #[trigger] row_start(row, vw) + c1
}

/// Row `row` strictly before `rows` ends no later than row `rows` starts.
pub proof fn lemma_row_before(row: int, rows: int, vw: int)
    requires
        0 <= row < rows,
        vw >= 0,
    ensures
        row * vw + vw <= rows * vw,
{
    assert(row * vw + vw <= rows * vw) by (nonlinear_arith)
        requires
            0 <= row < rows,
            vw >= 0,
    ;
}

/// Segments of rows up to `r1 - 1` end within a buffer that holds the last one.
pub proof fn lemma_rows_fit(row: int, r1: int, vw: int, c1: int, len: int)
    requires
        0 <= row < r1,
        vw >= 0,
        (r1 - 1) * vw + c1 <= len,
    ensures
        row * vw + c1 <= len,
        row * vw >= 0,
{
    assert(row * vw <= (r1 - 1) * vw && row * vw >= 0) by (nonlinear_arith)
        requires
            0 <= row <= r1 - 1,
            vw >= 0,
    ;
}

/// Sets `color` on every index of the segments `[row * vw + c0, row * vw + c1)`
/// for the rows `r0 <= row < r1`, leaving all other pixels as they were.
pub fn fill_rows(pixels: &mut Vec<u32>, r0: usize, r1: usize, vw: usize, c0: usize, c1: usize, color: u32)
    requires
        c0 <= c1,
        r0 < r1 ==> (r1 - 1) * vw + c1 <= old(pixels)@.len(),
    ensures
        final(pixels)@.len() == old(pixels)@.len(),
        forall|p: int|
            0 <= p < old(pixels)@.len() ==> #[trigger] final(pixels)@[p] == (if covered(
                p,
                r0 as int,
                r1 as int,
                vw as int,
                c0 as int,
                c1 as int,
            ) {
                color
            } else {
                old(pixels)@[p]
            }),
{
    let ghost orig = pixels@;
    let len = pixels.len();
    if r0 >= r1 {
        assert forall|p: int| 0 <= p < orig.len() implies !covered(
            p,
            r0 as int,
            r1 as int,
            vw as int,
            c0 as int,
            c1 as int,
        ) by {}
        return;
    }
    let mut row = r0;
    while row < r1
        invariant
            c0 <= c1,
            r0 <= row <= r1,
            len == orig.len(),
            (r1 - 1) * vw + c1 <= orig.len(),
            pixels@.len() == orig.len(),
            forall|p: int|
                0 <= p < orig.len() ==> #[trigger] pixels@[p] == (if covered(
                    p,
                    r0 as int,
                    row as int,
                    vw as int,
                    c0 as int,
                    c1 as int,
                ) {
                    color
                } else {
                    orig[p]
                }),
        decreases r1 - row,
    {
        proof {
            lemma_rows_fit(row as int, r1 as int, vw as int, c1 as int, orig.len() as int);
        }
        let base = row * vw;
        let mut j = base + c0;
        let hi = base + c1;
        while j < hi
            invariant
                base == row * vw,
                base + c0 <= j <= hi,
                hi == base + c1,
                hi <= orig.len(),
                len == orig.len(),
                pixels@.len() == orig.len(),
                forall|p: int|
                    0 <= p < orig.len() ==> #[trigger] pixels@[p] == (if covered(
                        p,
                        r0 as int,
                        row as int,
                        vw as int,
                        c0 as int,
                        c1 as int,
                    ) || (base + c0 <= p < j) {
                        color
                    } else {
                        orig[p]
                    }),
            decreases hi - j,
        {
            pixels.set(j, color);
            j = j + 1;
        }
        proof {
            assert forall|p: int| 0 <= p < orig.len() implies #[trigger] pixels@[p] == (if covered(
                p,
                r0 as int,
                (row + 1) as int,
                vw as int,
                c0 as int,
                c1 as int,
            ) {
                color
            } else {
                orig[p]
            }) by {
                let here = base + c0 <= p < base + c1;
                assert(row_start(row as int, vw as int) == base);
                if here {
                    assert(covered(p, r0 as int, (row + 1) as int, vw as int, c0 as int, c1 as int));
                }
                if covered(p, r0 as int, row as int, vw as int, c0 as int, c1 as int) {
                    let w = choose|w: int|
                        r0 <= w < row && row_start(w, vw as int) + c0 <= p < #[trigger] row_start(
                            w,
                            vw as int,
                        ) + c1;
                    assert(r0 <= w < row + 1 && row_start(w, vw as int) + c0 <= p < row_start(
                        w,
                        vw as int,
                    ) + c1);
                }
                if covered(p, r0 as int, (row + 1) as int, vw as int, c0 as int, c1 as int) {
                    let w = choose|w: int|
                        r0 <= w < row + 1 && row_start(w, vw as int) + c0 <= p < #[trigger] row_start(
                            w,
                            vw as int,
                        ) + c1;
                    if w < row {
                        assert(covered(p, r0 as int, row as int, vw as int, c0 as int, c1 as int));
                    }
                }
            }
        }
        row = row + 1;
    }
}

} // verus!
