use vstd::prelude::*;

use crate::ptr_table::{table_error, Table};
use crate::rom_map;
use crate::utils::{bit_set, get_u16, get_u24, spec_get_u16, spec_get_u24, test_bit, DataError};

verus! {

/// Bytes of one NPC record.
pub const NPC_SIZE: usize = 9;
/// Pointers in the NPC pointer table: one per location, and one that closes
/// the last range.
pub const NPC_TABLE_LEN: usize = 0x1a0;

/// A non-player character placed on a map.
#[derive(Clone, Copy, Debug, PartialEq, Eq, Structural)]
pub struct Npc {
    pub event_addr: u32,
    pub palette: u8,
    pub solid_action_path: bool,
    /// Bit and byte of the event bit that makes the NPC visible.
    pub enable_bit: u8,
    pub enable_addr: u8,
    pub x: u8,
    pub show_rider_in_vehicle: bool,
    pub y: u8,
    pub speed: u8,
    pub sprite: u8,
    pub movement_type: u8,
    pub map_layer: u8,
    pub vehicle: u8,
    pub start_direction: u8,
    pub turn_when_triggered: bool,
    pub unknown_8_bits: u8,
}

/// The NPC that the first nine bytes of `d` describe.
pub open spec fn npc_of(d: Seq<u8>) -> Npc {
    Npc {
        event_addr: (spec_get_u24(d, 0) as u32) & 0x3ffffu32,
        palette: (d[2] >> 2u8) & 0x7u8,
        solid_action_path: bit_set(d[2], 5),
        enable_bit: ((spec_get_u16(d, 2) >> 6u32) & 0x7u32) as u8,
        enable_addr: d[3] >> 1u8,
        x: d[4] & 0x7fu8,
        show_rider_in_vehicle: bit_set(d[4], 7),
        y: d[5] & 0x3fu8,
        speed: d[5] >> 6u8,
        sprite: d[6],
        movement_type: d[7] & 0xfu8,
        map_layer: (d[7] >> 4u8) & 0x3u8,
        vehicle: (d[7] >> 6u8) & 0x3u8,
        start_direction: d[8] & 0x3u8,
        turn_when_triggered: bit_set(d[8], 2),
        unknown_8_bits: d[8] >> 3u8,
    }
}

/// Whether `npcs` are the whole records of `d`, in order; trailing bytes that
/// do not fill a record are left out.
pub open spec fn npcs_of(npcs: Seq<Npc>, d: Seq<u8>) -> bool {
    &&& npcs.len() == d.len() / 9
    &&& forall|i: int|
        0 <= i < npcs.len() ==> #[trigger] npcs[i] == npc_of(d.subrange(9 * i, 9 * i + 9))
}

/// File offset of the NPC pointer table.
pub open spec fn npc_table_addr() -> int {
    rom_map::NPC_POINTERS - rom_map::SNES_ROM_ADDR
}

/// Reads the table of each location's range of NPC records.
pub fn ptr_table(rom_data: &[u8]) -> (r: Result<Table, DataError>)
    ensures
        match r {
            Ok(t) => table_error(rom_data@, npc_table_addr(), NPC_TABLE_LEN as int) is None
                && crate::ptr_table::entries_of(
                t.entries@,
                rom_data@.subrange(npc_table_addr(), rom_data@.len() as int),
                NPC_TABLE_LEN as int,
                npc_table_addr(),
            ),
            Err(e) => table_error(rom_data@, npc_table_addr(), NPC_TABLE_LEN as int) == Some(e),
        },
{
    let addr = rom_map::snes_to_file(rom_map::NPC_POINTERS);
    Table::read(rom_data, addr, NPC_TABLE_LEN)
}

/// Decodes one NPC record.
pub fn parse_npc(data: &[u8]) -> (r: Result<Npc, DataError>)
    ensures
        match r {
            Ok(n) => data@.len() >= NPC_SIZE && n == npc_of(data@),
            Err(e) => data@.len() < NPC_SIZE && e == (DataError::TooShort {
                needed: NPC_SIZE,
                actual: data@.len() as usize,
            }),
        },
{
    if data.len() < NPC_SIZE {
        return Err(DataError::TooShort { needed: NPC_SIZE, actual: data.len() });
    }
    let rest = &data[2..data.len()];
    Ok(
        Npc {
            event_addr: get_u24(data) & 0x3ffffu32,
            palette: (data[2] >> 2u8) & 0x7u8,
            solid_action_path: test_bit(data[2], 5),
            enable_bit: ((get_u16(rest) >> 6u32) & 0x7u32) as u8,
            enable_addr: data[3] >> 1u8,
            x: data[4] & 0x7fu8,
            show_rider_in_vehicle: test_bit(data[4], 7),
            y: data[5] & 0x3fu8,
            speed: data[5] >> 6u8,
            sprite: data[6],
            movement_type: data[7] & 0xfu8,
            map_layer: (data[7] >> 4u8) & 0x3u8,
            vehicle: (data[7] >> 6u8) & 0x3u8,
            start_direction: data[8] & 0x3u8,
            turn_when_triggered: test_bit(data[8], 2),
            unknown_8_bits: data[8] >> 3u8,
        },
    )
}

/// Decodes the NPC records that `data` holds one after another.
pub fn parse_npcs(data: &[u8]) -> (r: Result<Vec<Npc>, DataError>)
    ensures
        r matches Ok(npcs) && npcs_of(npcs@, data@),
{
    let len = data.len();
    let num = len / NPC_SIZE;
    let mut npcs: Vec<Npc> = Vec::new();
    let mut i: usize = 0;
    while i < num
        invariant
            len == data@.len(),
            num == data@.len() / 9,
            i <= num,
            npcs@.len() == i,
            forall|j: int|
                0 <= j < i ==> #[trigger] npcs@[j] == npc_of(data@.subrange(9 * j, 9 * j + 9)),
        decreases num - i,
    {
        assert(9 * i + 9 <= len) by (nonlinear_arith)
            requires
                i < num,
                num == len / 9,
        ;
        let start = i * NPC_SIZE;
        match parse_npc(&data[start..start + NPC_SIZE]) {
            Ok(n) => npcs.push(n),
            Err(e) => {
                return Err(e);
            },
        }
        i = i + 1;
    }
    Ok(npcs)
}

} // verus!
