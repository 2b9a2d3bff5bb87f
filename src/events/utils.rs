use vstd::prelude::*;

use crate::events::ParseError;

verus! {

/// The 16-bit little-endian value stored at `pos`.
pub open spec fn spec_u16(data: Seq<u8>, pos: int) -> int {
    data[pos] as int + 0x100 * data[pos + 1] as int
}

/// The 24-bit little-endian value stored at `pos`.
pub open spec fn spec_u24(data: Seq<u8>, pos: int) -> int {
    data[pos] as int + 0x100 * data[pos + 1] as int + 0x10000 * data[pos + 2] as int
}

/// Whether `tag` lies in the inclusive range `min..=max`.
pub open spec fn in_range(tag: u8, min: u8, max: u8) -> bool {
    min <= tag && tag <= max
}

/// Reads the 16-bit little-endian operand at `pos`.
pub fn read_u16(data: &[u8], pos: usize) -> (r: u16)
    requires
        pos + 2 <= data@.len(),
    ensures
        r as int == spec_u16(data@, pos as int),
{
    let lo = data[pos] as u16;
    let hi = data[pos + 1] as u16;
    assert((lo | (hi << 8u16)) == lo + 0x100 * hi) by (bit_vector)
        requires lo < 0x100, hi < 0x100;
    lo | (hi << 8u16)
}

/// Reads the 24-bit little-endian operand at `pos`.
pub fn read_u24(data: &[u8], pos: usize) -> (r: u32)
    requires
        pos + 3 <= data@.len(),
    ensures
        r as int == spec_u24(data@, pos as int),
{
    let a = data[pos] as u32;
    let b = data[pos + 1] as u32;
    let c = data[pos + 2] as u32;
    assert((a | (b << 8u32) | (c << 16u32)) == a + 0x100 * b + 0x10000 * c) by (bit_vector)
        requires a < 0x100, b < 0x100, c < 0x100;
    a | (b << 8u32) | (c << 16u32)
}

/// Whether `tag` lies in the inclusive range `min..=max`.
pub fn tag_in_range(tag: u8, min: u8, max: u8) -> (r: bool)
    ensures
        r == in_range(tag, min, max),
{
    min <= tag && tag <= max
}

/// Whether `d2`, from `pos + delta` on, holds the bytes of `d1` from `pos` to
/// its end, and is no shorter.
pub open spec fn agree_from(d1: Seq<u8>, d2: Seq<u8>, pos: int, delta: int) -> bool {
    &&& 0 <= pos
    &&& 0 <= delta
    &&& d1.len() + delta <= d2.len()
    &&& forall|i: int| pos <= i < d1.len() ==> d2[i + delta] == #[trigger] d1[i]
}

/// The same error at an offset moved by `delta`.
pub open spec fn shift_error(e: Option<ParseError>, delta: int) -> Option<ParseError> {
    match e {
        Some(ParseError::UnrecognizedTag { tag, offset }) => Some(
            ParseError::UnrecognizedTag { tag, offset: (offset + delta) as usize },
        ),
        Some(ParseError::Truncated { offset }) => Some(
            ParseError::Truncated { offset: (offset + delta) as usize },
        ),
        None => None,
    }
}

pub open spec fn is_truncated(e: Option<ParseError>) -> bool {
    e matches Some(ParseError::Truncated { .. })
}

} // verus!
