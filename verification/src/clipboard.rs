//! Pixel order for the cross-platform clipboard: RGBA image bytes to BGRA.
use vstd::prelude::*;

verus! {

/// Byte `j` of the BGRA form of RGBA pixels: red and blue swapped.
pub open spec fn bgra_byte(raw: Seq<u8>, j: int) -> u8 {
    let i = j / 4;
    let k = j % 4;
    if k == 0 {
        raw[4 * i + 2]
    } else if k == 1 {
        raw[4 * i + 1]
    } else if k == 2 {
        raw[4 * i]
    } else {
        raw[4 * i + 3]
    }
}

/// BGRA bytes of the first `width x height` RGBA pixels of `raw`.
pub fn rgba_to_bgra(raw: &Vec<u8>, width: u32, height: u32) -> (out: Vec<u8>)
    requires
        width * height * 4 <= raw@.len(),
    ensures
        out@.len() == width * height * 4,
        forall|j: int| 0 <= j < out@.len() ==> #[trigger] out@[j] == bgra_byte(raw@, j),
{
    let len: usize = raw.len();
    proof {
        assert(width * height * 4 <= len);
    }
    let total: usize = (width as usize) * (height as usize) * 4;
    let mut out: Vec<u8> = Vec::new();
    let mut j: usize = 0;
    while j < total
        invariant
            total == width * height * 4,
            total <= raw@.len(),
            len == raw@.len(),
            j <= total,
            out@.len() == j,
            forall|q: int| 0 <= q < j ==> #[trigger] out@[q] == bgra_byte(raw@, q),
        decreases total - j,
    {
        let i = j / 4;
        let k = j % 4;
        assert(4 * i + 3 < total) by (nonlinear_arith)
            requires
                i == j / 4,
                j < total,
                total % 4 == 0,
        ;
        let b: u8 = if k == 0 {
            raw[4 * i + 2]
        } else if k == 1 {
            raw[4 * i + 1]
        } else if k == 2 {
            raw[4 * i]
        } else {
            raw[4 * i + 3]
        };
        out.push(b);
        j = j + 1;
    }
    out
}

} // verus!
