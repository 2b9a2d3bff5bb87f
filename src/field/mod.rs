use vstd::prelude::*;

pub mod npc;
pub mod properties;
pub mod trigger;

use crate::field::npc::{npc_table_addr, npcs_of, Npc, NPC_TABLE_LEN};
use crate::field::properties::{properties_addr, properties_of, Properties, LOCATION_COUNT};
use crate::field::trigger::{trigger_table_addr, triggers_of, Trigger, TRIGGER_TABLE_LEN};
use crate::ptr_table::{entries_of, table_error, word, Entry};
use crate::rom_map;
use crate::utils::{get_u24, spec_get_u24, DataError};

verus! {

/// A map with what stands on it.
#[derive(Clone, Debug, PartialEq)]
pub struct Location {
    pub properties: Properties,
    pub entrance_event_addr: u32,
    pub triggers: Vec<Trigger>,
    pub npcs: Vec<Npc>,
}

/// File offset of the entrance event address of location `l`.
pub open spec fn entrance_addr(l: int) -> int {
    (rom_map::LOCATION_ENTRANCE_EVENTS - rom_map::SNES_ROM_ADDR) + l * 3
}

/// Entry `l` of the pointer table at file offset `addr`.
pub open spec fn table_entry(rom: Seq<u8>, addr: int, l: int) -> Entry {
    let t = rom.subrange(addr, rom.len() as int);
    Entry { addr: (addr + word(t, l)) as u32, len: (word(t, l + 1) - word(t, l)) as usize }
}

/// Why location `l` cannot be read from `rom`, if it can not.
pub open spec fn location_error(rom: Seq<u8>, l: int) -> Option<DataError> {
    let pa = properties_addr(l);
    let ea = entrance_addr(l);
    let ne = table_entry(rom, npc_table_addr(), l);
    let te = table_entry(rom, trigger_table_addr(), l);
    if pa > rom.len() {
        Some(DataError::TooShort { needed: pa as usize, actual: rom.len() as usize })
    } else if rom.len() - pa < 0x21 {
        Some(DataError::TooShort { needed: 0x21, actual: (rom.len() - pa) as usize })
    } else if ea + 3 > rom.len() {
        Some(DataError::TooShort { needed: (ea + 3) as usize, actual: rom.len() as usize })
    } else if !ne.fits(rom.len() as int) {
        Some(
            DataError::OutOfBounds { start: ne.addr as usize, len: ne.len, size: rom.len() as usize },
        )
    } else if !te.fits(rom.len() as int) {
        Some(
            DataError::OutOfBounds { start: te.addr as usize, len: te.len, size: rom.len() as usize },
        )
    } else {
        None
    }
}

/// The error of the first location from `l` on that cannot be read, if any.
pub open spec fn first_location_error(rom: Seq<u8>, l: int) -> Option<DataError>
    decreases LOCATION_COUNT - l,
{
    if l < 0 || l >= LOCATION_COUNT {
        None
    } else if location_error(rom, l) is Some {
        location_error(rom, l)
    } else {
        first_location_error(rom, l + 1)
    }
}

/// Why the locations cannot be read from `rom`, if they can not.
pub open spec fn parse_error(rom: Seq<u8>) -> Option<DataError> {
    if table_error(rom, npc_table_addr(), NPC_TABLE_LEN as int) is Some {
        table_error(rom, npc_table_addr(), NPC_TABLE_LEN as int)
    } else if table_error(rom, trigger_table_addr(), TRIGGER_TABLE_LEN as int) is Some {
        table_error(rom, trigger_table_addr(), TRIGGER_TABLE_LEN as int)
    } else {
        first_location_error(rom, 0)
    }
}

/// Whether `loc` is location `l` as `rom` describes it.
pub open spec fn location_matches(rom: Seq<u8>, l: int, loc: Location) -> bool {
    let ne = table_entry(rom, npc_table_addr(), l);
    let te = table_entry(rom, trigger_table_addr(), l);
    &&& loc.properties == properties_of(rom.subrange(properties_addr(l), rom.len() as int))
    &&& loc.entrance_event_addr == spec_get_u24(rom, entrance_addr(l)) as u32
    &&& npcs_of(loc.npcs@, rom.subrange(ne.addr as int, ne.addr + ne.len))
    &&& triggers_of(loc.triggers@, rom.subrange(te.addr as int, te.addr + te.len))
}

/// Reads every location of the ROM image: its properties, entrance event,
/// triggers and NPCs.
pub fn parse(rom_data: &[u8]) -> (r: Result<Vec<Location>, DataError>)
    ensures
        match r {
            Ok(locs) => parse_error(rom_data@) is None && locs@.len() == LOCATION_COUNT && forall|
                l: int,
            |
                0 <= l < LOCATION_COUNT ==> #[trigger] location_matches(rom_data@, l, locs@[l]),
            Err(e) => parse_error(rom_data@) == Some(e),
        },
{
    let npc_table = match npc::ptr_table(rom_data) {
        Ok(t) => t,
        Err(e) => {
            return Err(e);
        },
    };
    let trigger_table = match trigger::ptr_table(rom_data) {
        Ok(t) => t,
        Err(e) => {
            return Err(e);
        },
    };
    let ghost rom = rom_data@;
    let mut locs: Vec<Location> = Vec::new();
    let mut l: usize = 0;
    while l < LOCATION_COUNT
        invariant
            rom == rom_data@,
            table_error(rom, npc_table_addr(), NPC_TABLE_LEN as int) is None,
            table_error(rom, trigger_table_addr(), TRIGGER_TABLE_LEN as int) is None,
            entries_of(
                npc_table.entries@,
                rom.subrange(npc_table_addr(), rom.len() as int),
                NPC_TABLE_LEN as int,
                npc_table_addr(),
            ),
            entries_of(
                trigger_table.entries@,
                rom.subrange(trigger_table_addr(), rom.len() as int),
                TRIGGER_TABLE_LEN as int,
                trigger_table_addr(),
            ),
            l <= LOCATION_COUNT,
            locs@.len() == l,
            first_location_error(rom, 0) == first_location_error(rom, l as int),
            forall|j: int| 0 <= j < l ==> #[trigger] location_matches(rom, j, locs@[j]),
        decreases LOCATION_COUNT - l,
    {
        let pdata = match properties::data(l, rom_data) {
            Ok(d) => d,
            Err(e) => {
                return Err(e);
            },
        };
        let props = match properties::parse(pdata) {
            Ok(p) => p,
            Err(e) => {
                return Err(e);
            },
        };
        let entrance_table = rom_map::snes_to_file(rom_map::LOCATION_ENTRANCE_EVENTS) + l * 3;
        if entrance_table > rom_data.len() || rom_data.len() - entrance_table < 3 {
            return Err(DataError::TooShort { needed: entrance_table + 3, actual: rom_data.len() });
        }
        let entrance_event = get_u24(&rom_data[entrance_table..entrance_table + 3]);
        let npc_entry = npc_table.entries[l];
        let npcs = match npc_entry.slice(rom_data) {
            Ok(s) => match npc::parse_npcs(s) {
                Ok(v) => v,
                Err(e) => {
                    return Err(e);
                },
            },
            Err(e) => {
                return Err(e);
            },
        };
        let trigger_entry = trigger_table.entries[l];
        let triggers = match trigger_entry.slice(rom_data) {
            Ok(s) => match trigger::parse_triggers(s) {
                Ok(v) => v,
                Err(e) => {
                    return Err(e);
                },
            },
            Err(e) => {
                return Err(e);
            },
        };
        let loc = Location {
            properties: props,
            entrance_event_addr: entrance_event,
            triggers,
            npcs,
        };
        proof {
            assert(location_error(rom, l as int) is None);
            assert(location_matches(rom, l as int, loc));
        }
        locs.push(loc);
        l = l + 1;
    }
    Ok(locs)
}

} // verus!
