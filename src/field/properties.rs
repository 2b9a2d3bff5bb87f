use vstd::prelude::*;

use crate::rom_map;
use crate::utils::{bit_set, test_bit, DataError};

verus! {

/// Bytes of one location's properties record.
pub const PROPERTIES_SIZE: usize = 0x21;
/// How many locations the ROM describes.
pub const LOCATION_COUNT: usize = 0x19f;

/// The size of a background layer along one axis.
#[derive(Clone, Copy, Debug, PartialEq, Eq, Structural)]
pub enum BgDimension {
    Bg256,
    Bg512,
    Bg1024,
    Bg2048,
}

/// The properties record of a location.
#[derive(Clone, Copy, Debug, PartialEq, Eq)]
pub struct Properties {
    pub name_index: u8,
    pub enable_x_zone: bool,
    pub enable_warp: bool,
    pub wavy_bg3: bool,
    pub wavy_bg2: bool,
    pub wavy_bg1: bool,
    pub unknown_flag_1_6: bool,
    pub enable_spotlights: bool,
    pub load_timer_graphics: bool,
    pub battle_background: u8,
    pub bg3_in_foreground: bool,
    pub unknown3: u8,
    pub tile_properties_index: u8,
    pub battle_properties: u8,
    pub enable_random_battles: bool,
    pub window_mask_settings: u8,
    pub unknown_6_bits: u8,
    pub colosseum_house: bool,
    pub bg1_bg2_graphics: [u8; 4],
    pub bg3_graphics_index: u8,
    pub bg1_tileset_index: u8,
    pub bg2_tileset_index: u8,
    pub bg_tilemap_index: [u16; 3],
    pub sprite_overlay_index: u8,
    pub bg2_shift_left: u8,
    pub bg2_shift_up: u8,
    pub bg3_shift_left: u8,
    pub bg3_shift_up: u8,
    pub bg2_bg3_scroll_mode: u8,
    pub bg1_h: BgDimension,
    pub bg1_w: BgDimension,
    pub bg2_h: BgDimension,
    pub bg2_w: BgDimension,
    pub bg3_h: BgDimension,
    pub bg3_w: BgDimension,
    pub unused_18_bits: u8,
    pub palette_index: u8,
    pub palette_animation_index: u8,
    pub bg1_bg2_animation_index: u8,
    pub bg3_animation_index: u8,
    pub music_track: u8,
    pub unknown_1d: u8,
    pub map_width: u8,
    pub map_height: u8,
    pub bg2_bg3_color_math_mode: u8,
}

/// The dimension that the low two bits of `n` select.
pub open spec fn bg_dim_of(n: u8) -> BgDimension {
    let v = n & 0x3u8;
    if v == 0 {
        BgDimension::Bg256
    } else if v == 1 {
        BgDimension::Bg512
    } else if v == 2 {
        BgDimension::Bg1024
    } else {
        BgDimension::Bg2048
    }
}

fn bg_dim(n: u8) -> (r: BgDimension)
    ensures
        r == bg_dim_of(n),
{
    match n & 0x3u8 {
        0x0 => BgDimension::Bg256,
        0x1 => BgDimension::Bg512,
        0x2 => BgDimension::Bg1024,
        _ => BgDimension::Bg2048,
    }
}

/// The properties that the first `PROPERTIES_SIZE` bytes of `d` describe.
pub open spec fn properties_of(d: Seq<u8>) -> Properties {
    Properties {
        name_index: d[0x00],
        enable_x_zone: bit_set(d[0x01], 0),
        enable_warp: bit_set(d[0x01], 1),
        wavy_bg3: bit_set(d[0x01], 2),
        wavy_bg2: bit_set(d[0x01], 3),
        wavy_bg1: bit_set(d[0x01], 4),
        unknown_flag_1_6: bit_set(d[0x01], 6),
        enable_spotlights: bit_set(d[0x01], 5),
        load_timer_graphics: bit_set(d[0x01], 7),
        battle_background: d[0x02] & 0x7fu8,
        bg3_in_foreground: bit_set(d[0x02], 7),
        unknown3: d[0x03],
        tile_properties_index: d[0x04],
        battle_properties: d[0x05] & 0x7fu8,
        enable_random_battles: bit_set(d[0x05], 7),
        window_mask_settings: d[0x06] & 0x3u8,
        unknown_6_bits: (d[0x06] >> 2u8) & 0x1fu8,
        colosseum_house: bit_set(d[0x06], 7),
        bg1_bg2_graphics: [
            d[0x07] & 0x7fu8,
            ((d[0x07] >> 7u8) | (d[0x08] << 1u8)) & 0x7fu8,
            ((d[0x08] >> 6u8) | (d[0x09] << 2u8)) & 0x7fu8,
            ((d[0x09] >> 5u8) | (d[0x0a] << 3u8)) & 0x7fu8,
        ],
        bg3_graphics_index: ((d[0x0a] >> 4u8) | (d[0x0b] << 4u8)) & 0x3fu8,
        bg1_tileset_index: ((d[0x0b] >> 2u8) | (d[0x0c] << 6u8)) & 0x7fu8,
        bg2_tileset_index: d[0x0c] >> 1u8,
        bg_tilemap_index: [
            (d[0x0d] as u16 | (d[0x0e] as u16) << 8u16) & 0xfffu16,
            ((d[0x0e] as u16) >> 2u16 | (d[0x0f] as u16) << 6u16) & 0xfffu16,
            ((d[0x0f] as u16) >> 4u16 | (d[0x10] as u16) << 4u16) & 0xfffu16,
        ],
        sprite_overlay_index: d[0x11],
        bg2_shift_left: d[0x12],
        bg2_shift_up: d[0x13],
        bg3_shift_left: d[0x14],
        bg3_shift_up: d[0x15],
        bg2_bg3_scroll_mode: d[0x16],
        bg1_h: bg_dim_of(d[0x17]),
        bg1_w: bg_dim_of(d[0x17] >> 2u8),
        bg2_h: bg_dim_of(d[0x17] >> 4u8),
        bg2_w: bg_dim_of(d[0x17] >> 6u8),
        bg3_h: bg_dim_of(d[0x18] >> 4u8),
        bg3_w: bg_dim_of(d[0x18] >> 6u8),
        unused_18_bits: d[0x18] & 0xfu8,
        palette_index: d[0x19],
        palette_animation_index: d[0x1a],
        bg1_bg2_animation_index: d[0x1b] & 0x1fu8,
        bg3_animation_index: d[0x1b] >> 5u8,
        music_track: d[0x1c],
        unknown_1d: d[0x1d],
        map_width: d[0x1e],
        map_height: d[0x1f],
        bg2_bg3_color_math_mode: d[0x20],
    }
}

/// File offset of the properties record of location `index`.
pub open spec fn properties_addr(index: int) -> int {
    index * 0x21 + (rom_map::LOCATION_PROPERTIES - rom_map::SNES_ROM_ADDR)
}

/// The bytes of the ROM image from the properties record of location `index`
/// on.
pub fn data(index: usize, rom_data: &[u8]) -> (r: Result<&[u8], DataError>)
    ensures
        match r {
            Ok(s) => index < LOCATION_COUNT && properties_addr(index as int) <= rom_data@.len()
                && s@ == rom_data@.subrange(
                properties_addr(index as int),
                rom_data@.len() as int,
            ),
            Err(e) => if index >= LOCATION_COUNT {
                e == (DataError::IndexOutOfRange { index })
            } else {
                properties_addr(index as int) > rom_data@.len() && e == (DataError::TooShort {
                    needed: properties_addr(index as int) as usize,
                    actual: rom_data@.len() as usize,
                })
            },
        },
{
    if index >= LOCATION_COUNT {
        return Err(DataError::IndexOutOfRange { index });
    }
    let addr = index * PROPERTIES_SIZE + rom_map::snes_to_file(rom_map::LOCATION_PROPERTIES);
    if addr > rom_data.len() {
        return Err(DataError::TooShort { needed: addr, actual: rom_data.len() });
    }
    Ok(&rom_data[addr..rom_data.len()])
}

/// Decodes a location's properties record.
pub fn parse(data: &[u8]) -> (r: Result<Properties, DataError>)
    ensures
        match r {
            Ok(p) => data@.len() >= PROPERTIES_SIZE && p == properties_of(data@),
            Err(e) => data@.len() < PROPERTIES_SIZE && e == (DataError::TooShort {
                needed: PROPERTIES_SIZE,
                actual: data@.len() as usize,
            }),
        },
{
    if data.len() < PROPERTIES_SIZE {
        return Err(DataError::TooShort { needed: PROPERTIES_SIZE, actual: data.len() });
    }
    Ok(
        Properties {
            name_index: data[0x00],
            enable_x_zone: test_bit(data[0x01], 0),
            enable_warp: test_bit(data[0x01], 1),
            wavy_bg3: test_bit(data[0x01], 2),
            wavy_bg2: test_bit(data[0x01], 3),
            wavy_bg1: test_bit(data[0x01], 4),
            unknown_flag_1_6: test_bit(data[0x01], 6),
            enable_spotlights: test_bit(data[0x01], 5),
            load_timer_graphics: test_bit(data[0x01], 7),
            battle_background: data[0x02] & 0x7fu8,
            bg3_in_foreground: test_bit(data[0x02], 7),
            unknown3: data[0x03],
            tile_properties_index: data[0x04],
            battle_properties: data[0x05] & 0x7fu8,
            enable_random_battles: test_bit(data[0x05], 7),
            window_mask_settings: data[0x06] & 0x3u8,
            unknown_6_bits: (data[0x06] >> 2u8) & 0x1fu8,
            colosseum_house: test_bit(data[0x06], 7),
            bg1_bg2_graphics: [
                data[0x07] & 0x7fu8,
                ((data[0x07] >> 7u8) | (data[0x08] << 1u8)) & 0x7fu8,
                ((data[0x08] >> 6u8) | (data[0x09] << 2u8)) & 0x7fu8,
                ((data[0x09] >> 5u8) | (data[0x0a] << 3u8)) & 0x7fu8,
            ],
            bg3_graphics_index: ((data[0x0a] >> 4u8) | (data[0x0b] << 4u8)) & 0x3fu8,
            bg1_tileset_index: ((data[0x0b] >> 2u8) | (data[0x0c] << 6u8)) & 0x7fu8,
            bg2_tileset_index: data[0x0c] >> 1u8,
            bg_tilemap_index: [
                (data[0x0d] as u16 | (data[0x0e] as u16) << 8u16) & 0xfffu16,
                ((data[0x0e] as u16) >> 2u16 | (data[0x0f] as u16) << 6u16) & 0xfffu16,
                ((data[0x0f] as u16) >> 4u16 | (data[0x10] as u16) << 4u16) & 0xfffu16,
            ],
            sprite_overlay_index: data[0x11],
            bg2_shift_left: data[0x12],
            bg2_shift_up: data[0x13],
            bg3_shift_left: data[0x14],
            bg3_shift_up: data[0x15],
            bg2_bg3_scroll_mode: data[0x16],
            bg1_h: bg_dim(data[0x17]),
            bg1_w: bg_dim(data[0x17] >> 2u8),
            bg2_h: bg_dim(data[0x17] >> 4u8),
            bg2_w: bg_dim(data[0x17] >> 6u8),
            bg3_h: bg_dim(data[0x18] >> 4u8),
            bg3_w: bg_dim(data[0x18] >> 6u8),
            unused_18_bits: data[0x18] & 0xfu8,
            palette_index: data[0x19],
            palette_animation_index: data[0x1a],
            bg1_bg2_animation_index: data[0x1b] & 0x1fu8,
            bg3_animation_index: data[0x1b] >> 5u8,
            music_track: data[0x1c],
            unknown_1d: data[0x1d],
            map_width: data[0x1e],
            map_height: data[0x1f],
            bg2_bg3_color_math_mode: data[0x20],
        },
    )
}

} // verus!
