use ff6::events::action::{parse_action, Action, CENTER_ON_SCREEN};
use ff6::events::field;
use ff6::events::world_char::{
    self, decode_condition, CondOp, Condition, Diagonal, Direction, Speed,
};
use ff6::events::{parse, DialectMismatch, ParseError, Script};

#[test]
fn action_simple_events_test() {
    assert_eq!(Action::CenterOnScreen, parse_action(&[CENTER_ON_SCREEN], 0).unwrap());
}

#[test]
fn field_simple_events_test() {
    assert_eq!(
        field::Event::BranchIfEventBit { bit: 0x127, addr: 0x108 },
        field::parse_event(&[field::BRANCH_IF_EVENT_BIT, 0x27, 0x01, 0x08, 0x01, 0x00], 0)
            .unwrap()
            .0
    );

    assert_eq!(
        field::Event::Call { addr: 0x00 },
        field::parse_event(&[field::CALL, 0x00, 0x00, 0x00], 0).unwrap().0
    );
    assert_eq!(
        field::Event::Call { addr: 0x5e33 },
        field::parse_event(&[field::CALL, 0x33, 0x5e, 0x00], 0).unwrap().0
    );

    assert_eq!(
        field::Event::Dialog { msg: 0x0b85, wait: true },
        field::parse_event(&[field::DISP_TEXT_BOX_WAIT, 0x85, 0x0b], 0).unwrap().0
    );
    assert_eq!(field::Event::DialogWait, field::parse_event(&[field::DIALOG_WAIT], 0).unwrap().0);

    assert_eq!(field::Event::InvokeBattle, field::parse_event(&[field::INVOKE_BATTLE], 0).unwrap().0);
    assert_eq!(
        field::Event::InvokeBattleOnChestOpen,
        field::parse_event(&[field::INVOKE_BATTLE_ON_CHEST_OPEN], 0).unwrap().0
    );

    assert_eq!(
        field::Event::JumpIfBattleSwitch { switch: 0x40, addr: 0x32 },
        field::parse_event(&[field::JUMP_IF_BATTLE_SWITCH, 0x40, 0x32, 0x00, 0x00], 0)
            .unwrap()
            .0
    );

    assert_eq!(field::Event::MakeChar0Lead, field::parse_event(&[field::MAKE_CHAR0_LEAD], 0).unwrap().0);

    assert_eq!(field::Event::Nop, field::parse_event(&[field::NOP], 0).unwrap().0);

    assert_eq!(field::Event::UnfadeScreen, field::parse_event(&[field::UNFADE_SCREEN], 0).unwrap().0);
}

#[test]
fn script_test() {
    assert_eq!(
        field::Script { events: vec![field::Event::Dialog { msg: 0x0b85, wait: true }] },
        field::parse_script(&[0x4b, 0x85, 0x0b, 0xfe], 0).unwrap().0
    )
}

#[test]
fn world_char_simple_events_test() {
    let parse_event = |bytes: &[u8]| world_char::parse_event(bytes, 0).unwrap().0;
    assert_eq!(
        world_char::Event::ClrSetEventBit { set: true, byte: 0x39, bit: 0x4 },
        parse_event(&[world_char::SET_EVENT_BIT, 0xcc, 0x01])
    );

    assert_eq!(world_char::Event::EntitySpeed { speed: Speed::Slowest }, parse_event(&[0xc0]));
    assert_eq!(world_char::Event::EntitySpeed { speed: Speed::Slow }, parse_event(&[0xc1]));
    assert_eq!(world_char::Event::EntitySpeed { speed: Speed::Normal }, parse_event(&[0xc2]));
    assert_eq!(world_char::Event::EntitySpeed { speed: Speed::Fast }, parse_event(&[0xc3]));
    assert_eq!(world_char::Event::EntitySpeed { speed: Speed::Fastest }, parse_event(&[0xc4]));

    assert_eq!(world_char::Event::FadeScreen, parse_event(&[world_char::FADE_SCREEN]));

    assert_eq!(world_char::Event::HideCharacter, parse_event(&[world_char::HIDE_CHARACTER]));

    assert_eq!(world_char::Event::HideMiniMap, parse_event(&[world_char::HIDE_MINI_MAP]));

    assert_eq!(
        world_char::Event::LoadMap { map: 0x603, x: 8, y: 8, mode: 0, variant: world_char::LOAD_MAP },
        parse_event(&[world_char::LOAD_MAP, 0x03, 0x06, 0x08, 0x08, 0x00])
    );

    assert_eq!(
        world_char::Event::LoadMap { map: 0x603, x: 8, y: 8, mode: 0, variant: world_char::LOAD_MAP2 },
        parse_event(&[world_char::LOAD_MAP2, 0x03, 0x06, 0x08, 0x08, 0x00])
    );

    assert_eq!(world_char::Event::HideCharacter, parse_event(&[world_char::HIDE_CHARACTER]));

    assert_eq!(world_char::Event::Pause { frames: 10 }, parse_event(&[world_char::PAUSE, 10]));

    assert_eq!(world_char::Event::ShowCharacter, parse_event(&[world_char::SHOW_CHARACTER]));

    assert_eq!(world_char::Event::ShowMiniMap, parse_event(&[world_char::SHOW_MINI_MAP]));

    assert_eq!(
        world_char::Event::TurnCharacter { dir: Direction::Up },
        parse_event(&[world_char::TURN_CHARACTER_UP])
    );

    assert_eq!(
        world_char::Event::TurnCharacter { dir: Direction::Right },
        parse_event(&[world_char::TURN_CHARACTER_RIGHT])
    );

    assert_eq!(
        world_char::Event::TurnCharacter { dir: Direction::Down },
        parse_event(&[world_char::TURN_CHARACTER_DOWN])
    );

    assert_eq!(
        world_char::Event::TurnCharacter { dir: Direction::Left },
        parse_event(&[world_char::TURN_CHARACTER_LEFT])
    );

    assert_eq!(world_char::Event::UnfadeScreen, parse_event(&[world_char::UNFADE_SCREEN]));

    assert_eq!(
        world_char::Event::UnknownCmdC7 { args: [0xaa, 0x55] },
        parse_event(&[world_char::UNKNOWN_CMD_C7, 0xaa, 0x55])
    );
}

#[test]
fn conditional_jump_test() {
    let conditions = [
        Condition { is_set: true, byte: 0x14, bit: 0x4 },
        Condition { is_set: false, byte: 0x82, bit: 0x2 },
        Condition { is_set: true, byte: 0x00, bit: 0x2 },
        Condition { is_set: true, byte: 0x82, bit: 0x0 },
        Condition { is_set: true, byte: 0x00, bit: 0x0 },
        Condition { is_set: false, byte: 0xfff, bit: 0x0 },
        Condition { is_set: false, byte: 0x00, bit: 0x7 },
        Condition { is_set: false, byte: 0x00, bit: 0x0 },
    ];

    let encoded = [
        [0xa4, 0x80],
        [0x12, 0x04],
        [0x02, 0x80],
        [0x10, 0x84],
        [0x00, 0x80],
        [0xf8, 0x7f],
        [0x07, 0x00],
        [0x00, 0x00],
    ];
    for i in 0..8u8 {
        let mut c_vec = Vec::new();
        let mut bytes = vec![world_char::CONDITION_JUMP_AND1 + i];
        for c in 0..=i {
            c_vec.push(conditions[c as usize].clone());
        }
        for c in 0..=i {
            bytes.push(encoded[c as usize][0]);
            bytes.push(encoded[c as usize][1]);
        }

        bytes.push(0x56);
        bytes.push(0x34);
        bytes.push(0x12);

        assert_eq!(
            world_char::Event::ConditionalJump { op: CondOp::And, conditions: c_vec.clone(), addr: 0x123456 },
            world_char::parse_event(&bytes, 0).unwrap().0
        );

        bytes[0] = world_char::CONDITION_JUMP_OR1 + i;
        assert_eq!(
            world_char::Event::ConditionalJump { op: CondOp::Or, conditions: c_vec, addr: 0x123456 },
            world_char::parse_event(&bytes, 0).unwrap().0
        );
    }
}

#[test]
fn move_diagonal_test() {
    let parse_event = |tag: u8| world_char::parse_event(&[tag], 0).unwrap().0;
    assert_eq!(world_char::Event::MoveDiag { dir: Diagonal::RightUp, steps: [1, 1] }, parse_event(0xa0));
    assert_eq!(world_char::Event::MoveDiag { dir: Diagonal::RightUp, steps: [1, 2] }, parse_event(0xa4));
    assert_eq!(world_char::Event::MoveDiag { dir: Diagonal::RightUp, steps: [2, 1] }, parse_event(0xa5));

    assert_eq!(world_char::Event::MoveDiag { dir: Diagonal::RightDown, steps: [1, 1] }, parse_event(0xa1));
    assert_eq!(world_char::Event::MoveDiag { dir: Diagonal::RightDown, steps: [1, 2] }, parse_event(0xa7));
    assert_eq!(world_char::Event::MoveDiag { dir: Diagonal::RightDown, steps: [2, 1] }, parse_event(0xa6));

    assert_eq!(world_char::Event::MoveDiag { dir: Diagonal::LeftUp, steps: [1, 1] }, parse_event(0xa3));
    assert_eq!(world_char::Event::MoveDiag { dir: Diagonal::LeftUp, steps: [1, 2] }, parse_event(0xab));
    assert_eq!(world_char::Event::MoveDiag { dir: Diagonal::LeftUp, steps: [2, 1] }, parse_event(0xaa));

    assert_eq!(world_char::Event::MoveDiag { dir: Diagonal::LeftDown, steps: [1, 1] }, parse_event(0xa2));
    assert_eq!(world_char::Event::MoveDiag { dir: Diagonal::LeftDown, steps: [1, 2] }, parse_event(0xa8));
    assert_eq!(world_char::Event::MoveDiag { dir: Diagonal::LeftDown, steps: [2, 1] }, parse_event(0xa9));
}

#[test]
fn parse_graphical_action_test() {
    for i in 0..0x40u8 {
        assert_eq!(
            world_char::Event::GraphicalAction { action: i, flipped: false },
            world_char::parse_event(&[i], 0).unwrap().0
        );

        assert_eq!(
            world_char::Event::GraphicalAction { action: i, flipped: true },
            world_char::parse_event(&[i | 0x40], 0).unwrap().0
        );
    }
}

#[test]
fn parse_movement_test() {
    for dir in 0..=0x3u8 {
        for steps in 0..=0x7u8 {
            let cmd: u8 = 0x80 | steps << 2 | dir;
            assert_eq!(
                world_char::Event::Move { dir: dir, steps: steps },
                world_char::parse_event(&[cmd], 0).unwrap().0
            );
        }
    }
}

#[test]
fn zero_operand_events_take_one_byte() {
    for tag in [0x47u8, 0x49, 0x4e, 0x8e, 0x96, 0xff] {
        assert_eq!(field::parse_event(&[tag, 0x00], 0).unwrap().1, 1);
    }
    for tag in (0xa0u8..=0xab).chain(0xc0..=0xc4).chain(0xcc..=0xd1) {
        assert_eq!(world_char::parse_event(&[tag, 0x00], 0).unwrap().1, 1);
    }
    for tag in [0xd8u8, 0xd9, 0xdd, 0xdf] {
        assert_eq!(world_char::parse_event(&[tag, 0x00], 0).unwrap().1, 1);
    }
}

#[test]
fn conditional_jump_length() {
    let mut bytes = vec![0xbbu8];
    bytes.extend_from_slice(&[0u8; 8]);
    bytes.extend_from_slice(&[0x01, 0x02, 0x03, 0x99]);
    let (event, next) = world_char::parse_event(&bytes, 0).unwrap();
    assert_eq!(next, 12);
    match event {
        world_char::Event::ConditionalJump { op, conditions, addr } => {
            assert_eq!(op, CondOp::Or);
            assert_eq!(conditions.len(), 4);
            assert_eq!(addr, 0x030201);
        }
        _ => panic!("not a conditional jump"),
    }
}

#[test]
fn condition_codec() {
    assert_eq!(decode_condition(0x8002), Condition { is_set: true, byte: 0, bit: 2 });
    assert_eq!(decode_condition(0x07f8), Condition { is_set: false, byte: 0xff, bit: 0 });
    assert_eq!(decode_condition(0x7ff8), Condition { is_set: false, byte: 0xfff, bit: 0 });
    let mut bytes = vec![0xb0u8, 0xf8, 0x07, 0x00, 0x00, 0x00];
    match world_char::parse_event(&bytes, 0).unwrap().0 {
        world_char::Event::ConditionalJump { conditions, .. } => {
            assert_eq!(conditions, vec![Condition { is_set: false, byte: 0xff, bit: 0 }]);
        }
        _ => panic!("not a conditional jump"),
    }
    bytes[1] = 0x02;
    bytes[2] = 0x80;
    match world_char::parse_event(&bytes, 0).unwrap().0 {
        world_char::Event::ConditionalJump { conditions, .. } => {
            assert_eq!(conditions, vec![Condition { is_set: true, byte: 0, bit: 2 }]);
        }
        _ => panic!("not a conditional jump"),
    }
}

#[test]
fn action_queue_event() {
    assert_eq!(
        field::parse_event(&[0x31, 0x00, 0xd7, 0xff], 0).unwrap(),
        (
            field::Event::ActionQueue {
                queue_id: 0x31,
                actions: vec![Action::CenterOnScreen],
                wait: 0,
                len: 0
            },
            4
        )
    );
    assert_eq!(
        field::parse_event(&[0x00, 0x34, 0x82, 0xd7, 0xd7, 0xff, 0xfe], 1).unwrap(),
        (
            field::Event::ActionQueue {
                queue_id: 0x34,
                actions: vec![Action::CenterOnScreen, Action::CenterOnScreen],
                wait: 0x80,
                len: 2
            },
            6
        )
    );
    assert_eq!(
        field::parse_event(&[0x32, 0x00, 0xd7, 0x10, 0xff], 0),
        Err(ParseError::UnrecognizedTag { tag: 0x10, offset: 3 })
    );
    assert_eq!(
        field::parse_event(&[0x33, 0x00, 0xd7], 0),
        Err(ParseError::Truncated { offset: 0 })
    );
}

#[test]
fn action_queue_slot_tags() {
    assert_eq!(field::ActionQueue::FirstPartyMember.tag(), 0x31);
    assert_eq!(field::ActionQueue::FourthPartyMember.tag(), 0x34);
}

#[test]
fn unknown_tag_diagnostics() {
    assert_eq!(
        field::parse_event(&[0x01], 0),
        Err(ParseError::UnrecognizedTag { tag: 0x01, offset: 0 })
    );
    assert_eq!(
        world_char::parse_event(&[0x00, 0xe1], 1),
        Err(ParseError::UnrecognizedTag { tag: 0xe1, offset: 1 })
    );
    assert_eq!(parse_action(&[0x10], 0), Err(ParseError::UnrecognizedTag { tag: 0x10, offset: 0 }));
    assert_eq!(parse_action(&[], 0), Err(ParseError::Truncated { offset: 0 }));
}

#[test]
fn truncated_operands() {
    assert_eq!(field::parse_event(&[field::CALL, 0x00], 0), Err(ParseError::Truncated { offset: 0 }));
    assert_eq!(
        world_char::parse_event(&[0xb1, 0, 0, 0, 0, 0, 0], 0),
        Err(ParseError::Truncated { offset: 0 })
    );
    assert_eq!(world_char::parse_event(&[], 0), Err(ParseError::Truncated { offset: 0 }));
    assert_eq!(
        field::parse_script(&[field::DIALOG_WAIT], 0),
        Err(ParseError::Truncated { offset: 1 })
    );
}

#[test]
fn world_char_script() {
    let (script, end) = world_char::parse_script(&[0x00, 0x85, 0xff, 0x12], 0).unwrap();
    assert_eq!(end, 3);
    assert_eq!(
        script.events,
        vec![
            world_char::Event::GraphicalAction { action: 0, flipped: false },
            world_char::Event::Move { dir: 1, steps: 1 },
        ]
    );
    assert_eq!(
        world_char::parse_script(&[0x00, 0xfe], 0),
        Err(ParseError::UnrecognizedTag { tag: 0xfe, offset: 1 })
    );
}

#[test]
fn scan_single_field_script() {
    let result = parse(&[0x4b, 0x85, 0x0b, 0xfe]);
    assert_eq!(
        result.scripts,
        vec![(
            4,
            Script::FieldScript(field::Script {
                events: vec![field::Event::Dialog { msg: 0x0b85, wait: true }]
            })
        )]
    );
    assert_eq!(result.remaining, 0);
    assert_eq!(result.mismatch, None);
}

#[test]
fn scan_two_scripts_back_to_back() {
    let first = [0x4bu8, 0x85, 0x0b, 0xfe];
    let second = [0x10u8, 0x84, 0xff];
    let mut data = first.to_vec();
    data.extend_from_slice(&second);
    let result = parse(&data);
    assert_eq!(result.scripts.len(), 2);
    assert_eq!(result.scripts[0].0, first.len());
    assert_eq!(result.scripts[1].0, data.len());
    assert!(matches!(result.scripts[0].1, Script::FieldScript(_)));
    assert_eq!(
        result.scripts[1].1,
        Script::WorldCharScript(world_char::Script {
            events: vec![
                world_char::Event::GraphicalAction { action: 0x10, flipped: false },
                world_char::Event::Move { dir: 0, steps: 1 },
            ]
        })
    );
    assert_eq!(result.remaining, 0);
}

#[test]
fn scan_stops_where_no_dialect_decodes() {
    let result = parse(&[0x10, 0xff, 0x01, 0xfe]);
    assert_eq!(result.scripts.len(), 1);
    assert_eq!(result.scripts[0].0, 2);
    assert_eq!(result.remaining, 2);
    assert_eq!(
        result.mismatch,
        Some(DialectMismatch {
            offset: 2,
            world_char: ParseError::UnrecognizedTag { tag: 0xfe, offset: 3 },
            field: ParseError::UnrecognizedTag { tag: 0x01, offset: 2 },
        })
    );
}

#[test]
fn scan_empty_stream() {
    let result = parse(&[]);
    assert!(result.scripts.is_empty());
    assert_eq!(result.remaining, 0);
    assert_eq!(result.mismatch, None);
}
