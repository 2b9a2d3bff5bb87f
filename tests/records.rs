use ff6::field::npc::{parse_npc, parse_npcs, Npc};
use ff6::field::properties::{self, BgDimension, Properties};
use ff6::field::trigger::{parse_trigger, parse_triggers, Trigger};
use ff6::ptr_table::{Entry, Table};
use ff6::rom_map::snes_to_file;
use ff6::utils::{get_u16, get_u24, test_bit, DataError};

#[test]
fn npc_simple_test() {
    let npcs = vec![
        Npc {
            event_addr: 184951,
            palette: 1,
            solid_action_path: false,
            enable_bit: 6,
            enable_addr: 96,
            x: 64,
            show_rider_in_vehicle: false,
            y: 7,
            speed: 1,
            sprite: 54,
            movement_type: 0,
            map_layer: 0,
            vehicle: 0,
            start_direction: 2,
            turn_when_triggered: false,
            unknown_8_bits: 0,
        },
        Npc {
            event_addr: 184999,
            palette: 1,
            solid_action_path: false,
            enable_bit: 6,
            enable_addr: 96,
            x: 8,
            show_rider_in_vehicle: false,
            y: 38,
            speed: 1,
            sprite: 54,
            movement_type: 0,
            map_layer: 0,
            vehicle: 0,
            start_direction: 2,
            turn_when_triggered: false,
            unknown_8_bits: 0,
        },
    ];
    let data = [
        0x77, 0xd2, 0x06, 0xc0, 0x40, 0x47, 0x36, 0x00, 0x02, 0xa7, 0xd2, 0x06, 0xc0, 0x08, 0x66,
        0x36, 0x00, 0x02,
    ];
    assert_eq!(npcs, parse_npcs(&data).unwrap());
}

#[test]
fn properties_simple_test() {
    let data = [
        0x00, 0x00, 0x30, 0x00, 0x13, 0x80, 0x00, 0xaa, 0xc8, 0x06, 0x00, 0x64, 0x34, 0x03, 0x01,
        0x00, 0x00, 0x09, 0x00, 0x00, 0x00, 0x00, 0x00, 0x00, 0x0f, 0x0f, 0x00, 0x00, 0x00, 0x00,
        0x1f, 0x0e, 0x00,
    ];
    assert_eq!(
        Properties {
            name_index: 0,
            enable_x_zone: false,
            enable_warp: false,
            wavy_bg3: false,
            wavy_bg2: false,
            wavy_bg1: false,
            unknown_flag_1_6: false,
            enable_spotlights: false,
            load_timer_graphics: false,
            battle_background: 48,
            bg3_in_foreground: false,
            unknown3: 0,
            tile_properties_index: 19,
            battle_properties: 0,
            enable_random_battles: true,
            window_mask_settings: 0,
            unknown_6_bits: 0,
            colosseum_house: false,
            bg1_bg2_graphics: [42, 17, 27, 0],
            bg3_graphics_index: 0,
            bg1_tileset_index: 25,
            bg2_tileset_index: 26,
            bg_tilemap_index: [259, 0, 0],
            sprite_overlay_index: 9,
            bg2_shift_left: 0,
            bg2_shift_up: 0,
            bg3_shift_left: 0,
            bg3_shift_up: 0,
            bg2_bg3_scroll_mode: 0,
            bg1_h: BgDimension::Bg256,
            bg1_w: BgDimension::Bg256,
            bg2_h: BgDimension::Bg256,
            bg2_w: BgDimension::Bg256,
            bg3_h: BgDimension::Bg256,
            bg3_w: BgDimension::Bg256,
            unused_18_bits: 15,
            palette_index: 15,
            palette_animation_index: 0,
            bg1_bg2_animation_index: 0,
            bg3_animation_index: 0,
            music_track: 0,
            unknown_1d: 0,
            map_width: 31,
            map_height: 14,
            bg2_bg3_color_math_mode: 0
        },
        properties::parse(&data).unwrap()
    );
}

#[test]
fn trigger_simple_test() {
    let data = [0x40, 0x0e, 0xf2, 0x38, 0x02, 0x08, 0x2e, 0xff, 0x38, 0x02];
    let triggers = vec![
        Trigger { x: 64, y: 14, event_addr: 145650 },
        Trigger { x: 8, y: 46, event_addr: 145663 },
    ];

    assert_eq!(triggers, parse_triggers(&data).unwrap());
}

#[test]
fn ptr_table_simple_test() {
    assert_eq!(
        Table {
            entries: vec!(
                Entry { addr: 0x12345002, len: 2 },
                Entry { addr: 0x12345004, len: 0x100 },
                Entry { addr: 0x12345104, len: 0x1efc },
            )
        },
        Table::new(&[0x02, 0x00, 0x04, 0x00, 0x04, 0x01, 0x00, 0x20,], 4, 0x12345000)
    );
}

#[test]
fn record_helpers() {
    assert_eq!(get_u16(&[0x06, 0xc0]), 0x06 | (0xc0 << 1));
    assert_eq!(get_u24(&[0x56, 0x34, 0x12]), 0x123456);
    assert!(test_bit(0x20, 5));
    assert!(!test_bit(0x20, 4));
    assert_eq!(snes_to_file(0xc41a10), 0x41a10);
}

#[test]
fn short_records_are_rejected() {
    assert_eq!(parse_npc(&[0u8; 8]), Err(DataError::TooShort { needed: 9, actual: 8 }));
    assert_eq!(parse_trigger(&[0u8; 4]), Err(DataError::TooShort { needed: 5, actual: 4 }));
    assert_eq!(
        properties::parse(&[0u8; 0x20]),
        Err(DataError::TooShort { needed: 0x21, actual: 0x20 })
    );
    assert_eq!(parse_npcs(&[0u8; 8]).unwrap(), vec![]);
    assert_eq!(parse_triggers(&[0x01, 0x02, 0x03, 0x04, 0x05, 0x06]).unwrap().len(), 1);
}

#[test]
fn properties_background_dimensions() {
    let mut data = [0u8; 0x21];
    data[0x17] = 0b11_10_01_00;
    data[0x18] = 0b01_10_0000;
    let p = properties::parse(&data).unwrap();
    assert_eq!(p.bg1_h, BgDimension::Bg256);
    assert_eq!(p.bg1_w, BgDimension::Bg512);
    assert_eq!(p.bg2_h, BgDimension::Bg1024);
    assert_eq!(p.bg2_w, BgDimension::Bg2048);
    assert_eq!(p.bg3_h, BgDimension::Bg1024);
    assert_eq!(p.bg3_w, BgDimension::Bg512);
}

#[test]
fn properties_location_index() {
    assert_eq!(
        properties::data(0x19f, &[0u8; 4]),
        Err(DataError::IndexOutOfRange { index: 0x19f })
    );
    assert_eq!(
        properties::data(0, &[0u8; 4]),
        Err(DataError::TooShort { needed: 0x2d8f00, actual: 4 })
    );
}

#[test]
fn entry_slice() {
    let data = [1u8, 2, 3, 4, 5];
    assert_eq!(Entry { addr: 1, len: 3 }.slice(&data).unwrap(), &[2u8, 3, 4]);
    assert_eq!(
        Entry { addr: 3, len: 3 }.slice(&data),
        Err(DataError::OutOfBounds { start: 3, len: 3, size: 5 })
    );
}

#[test]
fn table_read_checks() {
    let rom = [0xaau8, 0x02, 0x00, 0x04, 0x00, 0x03, 0x00];
    let table = Table::read(&rom, 1, 2).unwrap();
    assert_eq!(table.entries, vec![Entry { addr: 3, len: 2 }]);
    assert_eq!(Table::read(&rom, 1, 3), Err(DataError::BadPointerTable { index: 2 }));
    assert_eq!(Table::read(&rom, 1, 4), Err(DataError::TooShort { needed: 9, actual: 7 }));
}

#[test]
fn locations_need_the_pointer_tables() {
    assert_eq!(
        ff6::field::parse(&[0u8; 16]),
        Err(DataError::TooShort { needed: 0x41a10 + 2 * 0x1a0, actual: 16 })
    );
}

#[test]
fn table_at_the_top_of_the_address_space() {
    assert_eq!(
        Table::new(&[0x00, 0x00, 0x00, 0x00], 2, u32::MAX).entries,
        vec![Entry { addr: u32::MAX, len: 0 }]
    );
    let table = Table::new(&[0x00, 0x00, 0x10, 0x00, 0x10, 0x00, 0x30, 0x00], 4, 0xffff_ff00);
    assert_eq!(
        table.entries,
        vec![
            Entry { addr: 0xffff_ff00, len: 0x10 },
            Entry { addr: 0xffff_ff10, len: 0 },
            Entry { addr: 0xffff_ff10, len: 0x20 },
        ]
    );
    for pair in table.entries.windows(2) {
        assert_eq!(pair[0].addr as usize + pair[0].len, pair[1].addr as usize);
    }
}
