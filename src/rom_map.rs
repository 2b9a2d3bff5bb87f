use vstd::prelude::*;

verus! {

pub const EVENT_TRIGGER_POINTERS: usize = 0xc40000;
pub const NPC_POINTERS: usize = 0xc41a10;
pub const NPC_DATA: usize = 0xc41d52;
pub const LOCATION_PROPERTIES: usize = 0xed8f00;
/// Three bytes per location: the address of the event run on entering it.
pub const LOCATION_ENTRANCE_EVENTS: usize = 0xd1fa00;

/// Where the ROM is mapped in the console's address space.
pub const SNES_ROM_ADDR: usize = 0xc00000;

/// The file offset of a ROM address.
pub fn snes_to_file(snes_addr: usize) -> (r: usize)
    requires
        snes_addr >= SNES_ROM_ADDR,
    ensures
        r == snes_addr - SNES_ROM_ADDR,
{
    snes_addr - SNES_ROM_ADDR
}

} // verus!
