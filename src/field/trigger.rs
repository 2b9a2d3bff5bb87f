use vstd::prelude::*;

use crate::ptr_table::{table_error, Table};
use crate::rom_map;
use crate::utils::{get_u24, spec_get_u24, DataError};

verus! {

/// Bytes of one trigger record.
pub const TRIGGER_SIZE: usize = 5;
/// Pointers in the trigger pointer table: one per location, and one that
/// closes the last range.
pub const TRIGGER_TABLE_LEN: usize = 0x1a0;

/// A map tile that runs an event when stepped on.
#[derive(Clone, Copy, Debug, PartialEq, Eq, Structural)]
pub struct Trigger {
    pub x: u8,
    pub y: u8,
    pub event_addr: u32,
}

/// The trigger that the first five bytes of `d` describe.
pub open spec fn trigger_of(d: Seq<u8>) -> Trigger {
    Trigger { x: d[0], y: d[1], event_addr: spec_get_u24(d, 2) as u32 }
}

/// Whether `triggers` are the whole records of `d`, in order; trailing bytes
/// that do not fill a record are left out.
pub open spec fn triggers_of(triggers: Seq<Trigger>, d: Seq<u8>) -> bool {
    &&& triggers.len() == d.len() / 5
    &&& forall|i: int|
        0 <= i < triggers.len() ==> #[trigger] triggers[i] == trigger_of(
            d.subrange(5 * i, 5 * i + 5),
        )
}

/// File offset of the trigger pointer table.
pub open spec fn trigger_table_addr() -> int {
    rom_map::EVENT_TRIGGER_POINTERS - rom_map::SNES_ROM_ADDR
}

/// Reads the table of each location's range of trigger records.
pub fn ptr_table(rom_data: &[u8]) -> (r: Result<Table, DataError>)
    ensures
        match r {
            Ok(t) => table_error(rom_data@, trigger_table_addr(), TRIGGER_TABLE_LEN as int) is None
                && crate::ptr_table::entries_of(
                t.entries@,
                rom_data@.subrange(trigger_table_addr(), rom_data@.len() as int),
                TRIGGER_TABLE_LEN as int,
                trigger_table_addr(),
            ),
            Err(e) => table_error(rom_data@, trigger_table_addr(), TRIGGER_TABLE_LEN as int)
                == Some(e),
        },
{
    let addr = rom_map::snes_to_file(rom_map::EVENT_TRIGGER_POINTERS);
    Table::read(rom_data, addr, TRIGGER_TABLE_LEN)
}

/// Decodes one trigger record.
pub fn parse_trigger(data: &[u8]) -> (r: Result<Trigger, DataError>)
    ensures
        match r {
            Ok(t) => data@.len() >= TRIGGER_SIZE && t == trigger_of(data@),
            Err(e) => data@.len() < TRIGGER_SIZE && e == (DataError::TooShort {
                needed: TRIGGER_SIZE,
                actual: data@.len() as usize,
            }),
        },
{
    if data.len() < TRIGGER_SIZE {
        return Err(DataError::TooShort { needed: TRIGGER_SIZE, actual: data.len() });
    }
    Ok(Trigger { x: data[0], y: data[1], event_addr: get_u24(&data[2..data.len()]) })
}

/// Decodes the trigger records that `data` holds one after another.
pub fn parse_triggers(data: &[u8]) -> (r: Result<Vec<Trigger>, DataError>)
    ensures
        r matches Ok(triggers) && triggers_of(triggers@, data@),
{
    let len = data.len();
    let num = len / TRIGGER_SIZE;
    let mut triggers: Vec<Trigger> = Vec::new();
    let mut i: usize = 0;
    while i < num
        invariant
            len == data@.len(),
            num == data@.len() / 5,
            i <= num,
            triggers@.len() == i,
            forall|j: int|
                0 <= j < i ==> #[trigger] triggers@[j] == trigger_of(
                    data@.subrange(5 * j, 5 * j + 5),
                ),
        decreases num - i,
    {
        assert(5 * i + 5 <= len) by (nonlinear_arith)
            requires
                i < num,
                num == len / 5,
        ;
        let start = i * TRIGGER_SIZE;
        match parse_trigger(&data[start..start + TRIGGER_SIZE]) {
            Ok(t) => triggers.push(t),
            Err(e) => {
                return Err(e);
            },
        }
        i = i + 1;
    }
    Ok(triggers)
}

} // verus!
