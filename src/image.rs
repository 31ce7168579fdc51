use vstd::prelude::*;

verus! {

/// Little-endian 16-bit field of `img` at offset `off`, if it lies inside.
pub open spec fn u16_at(img: Seq<u8>, off: int) -> Option<u16> {
    if 0 <= off && off + 2 <= img.len() {
        Some((img[off] as int + img[off + 1] as int * 0x100) as u16)
    } else {
        None
    }
}

/// Little-endian 32-bit field of `img` at offset `off`, if it lies inside.
pub open spec fn u32_at(img: Seq<u8>, off: int) -> Option<u32> {
    if 0 <= off && off + 4 <= img.len() {
        Some(
            (img[off] as int + img[off + 1] as int * 0x100 + img[off + 2] as int * 0x10000
                + img[off + 3] as int * 0x1000000) as u32,
        )
    } else {
        None
    }
}

/// Reads the little-endian 16-bit field at `off`.
pub fn read_u16(img: &[u8], off: u64) -> (r: Option<u16>)
    ensures
        r == u16_at(img@, off as int),
{
    let n = img.len();
    if off >= n as u64 || n as u64 - off < 2 {
        return None;
    }
    let o = off as usize;
    let v = img[o] as u16 + img[o + 1] as u16 * 0x100;
    Some(v)
}

/// Reads the little-endian 32-bit field at `off`.
pub fn read_u32(img: &[u8], off: u64) -> (r: Option<u32>)
    ensures
        r == u32_at(img@, off as int),
{
    let n = img.len();
    if off >= n as u64 || n as u64 - off < 4 {
        return None;
    }
    let o = off as usize;
    let v = img[o] as u32 + img[o + 1] as u32 * 0x100 + img[o + 2] as u32 * 0x10000
        + img[o + 3] as u32 * 0x1000000;
    Some(v)
}

} // verus!
