use vstd::prelude::*;

use crate::utils::DataError;

verus! {

/// A range of the ROM image that a pointer table points at.
#[derive(Clone, Copy, Debug, PartialEq, Eq, Structural)]
pub struct Entry {
    pub addr: u32,
    pub len: usize,
}

impl Entry {
    /// Whether the entry's range lies within `size` bytes.
    pub open spec fn fits(self, size: int) -> bool {
        self.addr + self.len <= size
    }

    /// The bytes of `data` that the entry covers.
    pub fn slice<'a>(&self, data: &'a [u8]) -> (r: Result<&'a [u8], DataError>)
        ensures
            match r {
                Ok(s) => self.fits(data@.len() as int) && s@ == data@.subrange(
                    self.addr as int,
                    self.addr + self.len,
                ),
                Err(e) => !self.fits(data@.len() as int) && e == (DataError::OutOfBounds {
                    start: self.addr as usize,
                    len: self.len,
                    size: data@.len() as usize,
                }),
            },
    {
        let start = self.addr as usize;
        if start > data.len() || self.len > data.len() - start {
            return Err(DataError::OutOfBounds { start, len: self.len, size: data.len() });
        }
        Ok(&data[start..start + self.len])
    }
}

/// Ranges read from a table of 16-bit pointers.
#[derive(Clone, Debug, PartialEq)]
pub struct Table {
    pub entries: Vec<Entry>,
}

/// The `i`-th 16-bit little-endian pointer of a table.
pub open spec fn word(data: Seq<u8>, i: int) -> int {
    data[2 * i] as int + 0x100 * data[2 * i + 1] as int
}

/// Whether the `n` pointers of a table never decrease.
pub open spec fn ascending(data: Seq<u8>, n: int) -> bool {
    forall|i: int| 0 <= i < n - 1 ==> #[trigger] word(data, i) <= word(data, i + 1)
}

/// Whether `entries` are the ranges between consecutive pointers of a table
/// of `n` pointers, moved by `offset`: the last pointer only closes the range
/// before it.
pub open spec fn entries_of(entries: Seq<Entry>, data: Seq<u8>, n: int, offset: int) -> bool {
    &&& entries.len() == n - 1
    &&& forall|i: int|
        0 <= i < n - 1 ==> #[trigger] entries[i] == (Entry {
            addr: (offset + word(data, i)) as u32,
            len: (word(data, i + 1) - word(data, i)) as usize,
        })
}

/// Whether each of the first `n - 1` pointers of a table, moved by `offset`,
/// still fits in 32 bits.
pub open spec fn addresses_fit(data: Seq<u8>, n: int, offset: int) -> bool {
    forall|i: int| 0 <= i < n - 1 ==> offset + #[trigger] word(data, i) <= u32::MAX
}

fn decode_u16(data: &[u8], i: usize) -> (r: u16)
    requires
        2 * i + 2 <= data.len(),
    ensures
        r as int == word(data@, i as int),
{
    data[2 * i] as u16 + 0x100u16 * (data[2 * i + 1] as u16)
}

impl Table {
    /// Reads a table of `entries` pointers, each taken relative to `offset`.
    pub fn new(data: &[u8], entries: usize, offset: u32) -> (r: Table)
        requires
            1 <= entries,
            2 * entries <= data@.len(),
            ascending(data@, entries as int),
            addresses_fit(data@, entries as int, offset as int),
        ensures
            entries_of(r.entries@, data@, entries as int, offset as int),
    {
        let mut table = Table { entries: Vec::new() };
        let mut i: usize = 0;
        while i < entries - 1
            invariant
                1 <= entries,
                2 * entries <= data@.len(),
                ascending(data@, entries as int),
                addresses_fit(data@, entries as int, offset as int),
                i <= entries - 1,
                table.entries@.len() == i,
                forall|j: int|
                    0 <= j < i ==> #[trigger] table.entries@[j] == (Entry {
                        addr: (offset + word(data@, j)) as u32,
                        len: (word(data@, j + 1) - word(data@, j)) as usize,
                    }),
            decreases entries - 1 - i,
        {
            let addr = decode_u16(data, i);
            let next_addr = decode_u16(data, i + 1);
            assert(word(data@, i as int) <= word(data@, i + 1));
            assert(offset + word(data@, i as int) <= u32::MAX);
            let len = next_addr - addr;
            table.entries.push(Entry { addr: offset + addr as u32, len: len as usize });
            i = i + 1;
        }
        table
    }

    /// Reads the table of `entries` pointers at file offset `addr` of the ROM
    /// image, each pointer taken relative to `addr`; fails where the image is
    /// too short for it, where a pointer moved by `addr` does not fit in 32
    /// bits, or where its pointers decrease.
    pub fn read(rom: &[u8], addr: usize, entries: usize) -> (r: Result<Table, DataError>)
        requires
            1 <= entries,
            addr + 2 * entries <= usize::MAX,
        ensures
            match r {
                Ok(t) => table_error(rom@, addr as int, entries as int) is None && entries_of(
                    t.entries@,
                    rom@.subrange(addr as int, rom@.len() as int),
                    entries as int,
                    addr as int,
                ),
                Err(e) => table_error(rom@, addr as int, entries as int) == Some(e),
            },
    {
        if rom.len() < addr || rom.len() - addr < 2 * entries {
            return Err(DataError::TooShort { needed: addr + 2 * entries, actual: rom.len() });
        }
        let data = &rom[addr..rom.len()];
        let mut i: usize = 1;
        while i < entries
            invariant
                data@ == rom@.subrange(addr as int, rom@.len() as int),
                addr + 2 * entries <= rom@.len(),
                1 <= i <= entries,
                2 * entries <= data@.len(),
                ascending(data@, i as int),
                addresses_fit(data@, i as int, addr as int),
                first_fault(data@, addr as int, 1, entries as int) == first_fault(
                    data@,
                    addr as int,
                    i as int,
                    entries as int,
                ),
            decreases entries - i,
        {
            let limit: u64 = 0xffff_ffff;
            let prev = decode_u16(data, i - 1);
            if addr as u64 > limit || prev as u64 > limit - addr as u64 {
                return Err(DataError::AddressOverflow { index: i - 1 });
            }
            if decode_u16(data, i) < prev {
                return Err(DataError::BadPointerTable { index: i });
            }
            proof {
                lemma_ascending_step(data@, i as int);
                assert forall|j: int| 0 <= j < i + 1 - 1 implies addr + #[trigger] word(data@, j)
                    <= u32::MAX by {
                    if j < i - 1 {
                        assert(addr + word(data@, j) <= u32::MAX);
                    }
                }
            }
            i = i + 1;
        }
        Ok(Table::new(data, entries, addr as u32))
    }
}

proof fn lemma_ascending_step(data: Seq<u8>, i: int)
    requires
        1 <= i,
        ascending(data, i),
        word(data, i - 1) <= word(data, i),
    ensures
        ascending(data, i + 1),
{
    assert forall|j: int| 0 <= j < i implies #[trigger] word(data, j) <= word(data, j + 1) by {
        if j < i - 1 {
            assert(word(data, j) <= word(data, j + 1));
        }
    }
}

/// The first fault of a table of `n` pointers moved by `addr`, looking from
/// pointer `i` on: a pointer before it that does not fit in 32 bits once
/// moved, or a pointer smaller than the one before it.
pub open spec fn first_fault(data: Seq<u8>, addr: int, i: int, n: int) -> Option<DataError>
    decreases n - i,
{
    if i >= n {
        None
    } else if addr + word(data, i - 1) > u32::MAX {
        Some(DataError::AddressOverflow { index: (i - 1) as usize })
    } else if word(data, i) < word(data, i - 1) {
        Some(DataError::BadPointerTable { index: i as usize })
    } else {
        first_fault(data, addr, i + 1, n)
    }
}

/// Why the table of `n` pointers at `addr` of `rom` cannot be read, if it
/// can not.
pub open spec fn table_error(rom: Seq<u8>, addr: int, n: int) -> Option<DataError> {
    if addr + 2 * n > rom.len() {
        Some(DataError::TooShort { needed: (addr + 2 * n) as usize, actual: rom.len() as usize })
    } else {
        first_fault(rom.subrange(addr, rom.len() as int), addr, 1, n)
    }
}

} // verus!
