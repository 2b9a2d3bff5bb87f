use vstd::prelude::*;

verus! {

/// Why a fixed-layout record or table could not be read from the ROM image.
#[derive(Clone, Copy, Debug, PartialEq, Eq, Structural)]
pub enum DataError {
    /// The record needs `needed` bytes where only `actual` are there.
    TooShort { needed: usize, actual: usize },
    /// The range of `len` bytes from `start` does not lie within the `size`
    /// bytes of the data.
    OutOfBounds { start: usize, len: usize, size: usize },
    /// There is no location with this index.
    IndexOutOfRange { index: usize },
    /// The pointer at `index` of a pointer table, moved by the table's
    /// offset, does not fit in 32 bits.
    AddressOverflow { index: usize },
    /// The pointer at `index` of a pointer table is smaller than the one
    /// before it.
    BadPointerTable { index: usize },
}

/// The value `get_u16` reads at `i`.
pub open spec fn spec_get_u16(data: Seq<u8>, i: int) -> u32 {
    (data[i] as u32) | ((data[i + 1] as u32) << 1u32)
}

/// The 24-bit little-endian value at `i`.
pub open spec fn spec_get_u24(data: Seq<u8>, i: int) -> int {
    data[i] as int + 0x100 * data[i + 1] as int + 0x10000 * data[i + 2] as int
}

/// Whether bit number `bit` of `data` is set.
pub open spec fn bit_set(data: u8, bit: u8) -> bool {
    (data >> bit) & 1u8 == 1u8
}

/// Reads two bytes as the record layouts of this ROM use them: the second
/// byte is shifted left by one bit and combined with the first.
pub fn get_u16(data: &[u8]) -> (r: u32)
    requires
        data@.len() >= 2,
    ensures
        r == spec_get_u16(data@, 0),
{
    (data[0] as u32) | ((data[1] as u32) << 1u32)
}

/// Reads a 24-bit little-endian value from the first three bytes.
pub fn get_u24(data: &[u8]) -> (r: u32)
    requires
        data@.len() >= 3,
    ensures
        r as int == spec_get_u24(data@, 0),
{
    let a = data[0] as u32;
    let b = data[1] as u32;
    let c = data[2] as u32;
    assert((a | (b << 8u32) | (c << 16u32)) == a + 0x100 * b + 0x10000 * c) by (bit_vector)
        requires a < 0x100, b < 0x100, c < 0x100;
    a | (b << 8u32) | (c << 16u32)
}

/// Whether bit number `bit` of `data` is set.
pub fn test_bit(data: u8, bit: u8) -> (r: bool)
    requires
        bit < 8,
    ensures
        r == bit_set(data, bit),
{
    let mask: u8 = 1u8 << bit;
    assert(((data & mask) == mask) == ((data >> bit) & 1u8 == 1u8)) by (bit_vector)
        requires bit < 8, mask == 1u8 << bit;
    (data & mask) == mask
}

} // verus!
