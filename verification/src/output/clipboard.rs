//! The CF_DIB clipboard block for a capture: a BITMAPINFOHEADER followed by
//! the pixels. Handing it to the clipboard is the caller's.
use vstd::prelude::*;
use crate::capture::screen::ScreenBitmap;

verus! {

/// Size of a BITMAPINFOHEADER.
pub const DIB_HEADER_SIZE: usize = 40;

/// Little-endian bytes of a 32-bit value given as its unsigned reading.
pub open spec fn le32(u: int) -> Seq<u8> {
    seq![(u % 0x100) as u8, ((u / 0x100) % 0x100) as u8, ((u / 0x10000) % 0x100) as u8, ((u / 0x1000000) % 0x100) as u8]
}

/// Little-endian bytes of a 16-bit value.
pub open spec fn le16(u: int) -> Seq<u8> {
    seq![(u % 0x100) as u8, ((u / 0x100) % 0x100) as u8]
}

/// The two's-complement reading of an `i32` as unsigned.
pub open spec fn unsigned32(v: int) -> int {
    if v < 0 { v + 0x1_0000_0000 } else { v }
}

/// The BITMAPINFOHEADER of a top-down 32-bit BGRA bitmap: size 40, width,
/// negated height, one plane, 32 bits, BI_RGB, image size, 2835 pixels per
/// metre both ways (72 dpi), no palette.
pub open spec fn dib_header(width: int, height: int) -> Seq<u8> {
    le32(40) + le32(unsigned32(width)) + le32(unsigned32(-height)) + le16(1) + le16(32) + le32(0) + le32(
        width * height * 4,
    ) + le32(2835) + le32(2835) + le32(0) + le32(0)
}

fn push_le32(out: &mut Vec<u8>, u: u32)
    ensures
        final(out)@ == old(out)@ + le32(u as int),
{
    out.push((u % 0x100) as u8);
    out.push(((u / 0x100) % 0x100) as u8);
    out.push(((u / 0x10000) % 0x100) as u8);
    out.push(((u / 0x1000000) % 0x100) as u8);
    assert(final(out)@ =~= old(out)@ + le32(u as int));
}

fn push_le16(out: &mut Vec<u8>, u: u16)
    ensures
        final(out)@ == old(out)@ + le16(u as int),
{
    out.push((u % 0x100) as u8);
    out.push(((u / 0x100) % 0x100) as u8);
    assert(final(out)@ =~= old(out)@ + le16(u as int));
}

fn as_unsigned(v: i32) -> (u: u32)
    ensures
        u == unsigned32(v as int),
{
    if v < 0 { (v as i64 + 0x1_0000_0000i64) as u32 } else { v as u32 }
}

/// The CF_DIB block for a capture: its header, then its pixels as they are.
pub fn dib_bytes(bmp: &ScreenBitmap) -> (out: Vec<u8>)
    requires
        bmp.width >= 0,
        bmp.height >= 0,
        bmp.width * bmp.height * 4 <= i32::MAX,
        bmp.data@.len() + DIB_HEADER_SIZE <= usize::MAX,
    ensures
        out@ == dib_header(bmp.width as int, bmp.height as int) + bmp.data@,
        out@.len() == DIB_HEADER_SIZE + bmp.data@.len(),
{
    let mut out: Vec<u8> = Vec::new();
    push_le32(&mut out, 40);
    push_le32(&mut out, as_unsigned(bmp.width));
    push_le32(&mut out, as_unsigned(-bmp.height));
    push_le16(&mut out, 1);
    push_le16(&mut out, 32);
    push_le32(&mut out, 0);
    push_le32(&mut out, (bmp.width * bmp.height * 4) as u32);
    push_le32(&mut out, 2835);
    push_le32(&mut out, 2835);
    push_le32(&mut out, 0);
    push_le32(&mut out, 0);
    let ghost header = out@;
    assert(header =~= dib_header(bmp.width as int, bmp.height as int));
    let mut i: usize = 0;
    while i < bmp.data.len()
        invariant
            i <= bmp.data@.len(),
            header.len() == DIB_HEADER_SIZE,
            out@ == header + bmp.data@.subrange(0, i as int),
        decreases bmp.data@.len() - i,
    {
        out.push(bmp.data[i]);
        i = i + 1;
        assert(out@ =~= header + bmp.data@.subrange(0, i as int));
    }
    assert(bmp.data@.subrange(0, bmp.data@.len() as int) =~= bmp.data@);
    out
}

} // verus!
