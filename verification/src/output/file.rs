//! Preparing a capture for saving: the pixel layout each format takes, and
//! which format a file name asks for. Encoding and writing are the caller's.
use vstd::prelude::*;
use vstd::string::StrSliceExecFns;

verus! {

/// Byte `j` of the RGB form of BGRA pixels: each pixel's red, green and blue,
/// alpha dropped; bytes past the end of the source stay 0.
pub open spec fn rgb_byte(data: Seq<u8>, j: int) -> u8 {
    let i = j / 3;
    let k = j % 3;
    if i < data.len() / 4 { data[4 * i + 2 - k] } else { 0 }
}

/// Byte `j` of the opaque RGBA form of BGRA pixels: red, green, blue, 255;
/// bytes of a trailing partial pixel stay 0.
pub open spec fn rgba_byte(data: Seq<u8>, j: int) -> u8 {
    let i = j / 4;
    let k = j % 4;
    if i < data.len() / 4 {
        if k < 3 { data[4 * i + 2 - k] } else { 255 }
    } else {
        0
    }
}

/// RGB bytes for a JPEG of `width x height` from BGRA pixels (JPEG has no
/// alpha).
pub fn bgra_to_rgb(data: &Vec<u8>, width: i32, height: i32) -> (rgb: Vec<u8>)
    requires
        width >= 0,
        height >= 0,
        width * height * 3 <= i32::MAX,
        data@.len() / 4 <= width * height,
    ensures
        rgb@.len() == width * height * 3,
        forall|j: int| 0 <= j < rgb@.len() ==> #[trigger] rgb@[j] == rgb_byte(data@, j),
{
    let total: usize = (width as usize) * (height as usize) * 3;
    let len: usize = data.len();
    let pixels: usize = len / 4;
    let mut rgb: Vec<u8> = Vec::new();
    let mut j: usize = 0;
    while j < total
        invariant
            total == width * height * 3,
            pixels == data@.len() / 4,
            len == data@.len(),
            pixels * 3 <= total,
            j <= total,
            rgb@.len() == j,
            forall|q: int| 0 <= q < j ==> #[trigger] rgb@[q] == rgb_byte(data@, q),
        decreases total - j,
    {
        let i = j / 3;
        let k = j % 3;
        if i < pixels {
            assert(4 * i + 3 < data@.len()) by (nonlinear_arith)
                requires
                    i < pixels,
                    pixels == data@.len() / 4,
            ;
        }
        let b: u8 = if i < pixels { data[4 * i + 2 - k] } else { 0 };
        rgb.push(b);
        j = j + 1;
    }
    rgb
}

/// Opaque RGBA bytes for a PNG from BGRA pixels: colour channels reordered,
/// alpha set to 255.
pub fn bgra_to_rgba_opaque(data: &Vec<u8>) -> (rgba: Vec<u8>)
    ensures
        rgba@.len() == data@.len(),
        forall|j: int| 0 <= j < rgba@.len() ==> #[trigger] rgba@[j] == rgba_byte(data@, j),
{
    let total: usize = data.len();
    let pixels: usize = total / 4;
    let mut rgba: Vec<u8> = Vec::new();
    let mut j: usize = 0;
    while j < total
        invariant
            total == data@.len(),
            pixels == total / 4,
            j <= total,
            rgba@.len() == j,
            forall|q: int| 0 <= q < j ==> #[trigger] rgba@[q] == rgba_byte(data@, q),
        decreases total - j,
    {
        let i = j / 4;
        let k = j % 4;
        let b: u8 = if i < pixels {
            if k < 3 { data[4 * i + 2 - k] } else { 255 }
        } else {
            0
        };
        rgba.push(b);
        j = j + 1;
    }
    rgba
}

/// A character in ASCII lower case.
pub open spec fn ascii_lower(c: char) -> char {
    if 'A' <= c <= 'Z' { ((c as int) + 32) as char } else { c }
}

pub open spec fn lower_seq(s: Seq<char>) -> Seq<char> {
    s.map_values(|c: char| ascii_lower(c))
}

/// A file extension that asks for JPEG: "jpg", "jpeg" or "jfif" in any case.
pub open spec fn spec_is_jpeg_extension(ext: Seq<char>) -> bool {
    lower_seq(ext) == "jpg"@ || lower_seq(ext) == "jpeg"@ || lower_seq(ext) == "jfif"@
}

fn lower_char(c: char) -> (l: char)
    ensures
        l == ascii_lower(c),
{
    if 'A' <= c && c <= 'Z' {
        let v = (c as u32 + 32) as u8;
        v as char
    } else {
        c
    }
}

/// Whether `ext` equals the lower-case ASCII word `lit`, ignoring case.
fn eq_ignore_case(ext: &str, lit: &str) -> (b: bool)
    ensures
        b == (lower_seq(ext@) == lit@),
{
    let n = ext.unicode_len();
    if n != lit.unicode_len() {
        assert(lower_seq(ext@).len() == ext@.len());
        return false;
    }
    let mut i: usize = 0;
    while i < n
        invariant
            n == ext@.len(),
            n == lit@.len(),
            i <= n,
            forall|j: int| 0 <= j < i ==> ascii_lower(#[trigger] ext@[j]) == lit@[j],
        decreases n - i,
    {
        if lower_char(ext.get_char(i)) != lit.get_char(i) {
            assert(lower_seq(ext@)[i as int] != lit@[i as int]);
            return false;
        }
        i = i + 1;
    }
    assert(lower_seq(ext@) =~= lit@);
    true
}

/// Whether a file extension (without the dot) asks for JPEG output. For the
/// letters of these words, Unicode lower-casing and ASCII lower-casing agree.
pub fn is_jpeg_extension(ext: &str) -> (b: bool)
    ensures
        b == spec_is_jpeg_extension(ext@),
{
    eq_ignore_case(ext, "jpg") || eq_ignore_case(ext, "jpeg") || eq_ignore_case(ext, "jfif")
}

} // verus!
