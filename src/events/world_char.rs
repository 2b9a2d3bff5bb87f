use vstd::prelude::*;

use crate::events::utils::{agree_from, in_range, is_truncated, shift_error, read_u16, read_u24, spec_u16, spec_u24, tag_in_range};
use crate::events::ParseError;

verus! {

pub const CONDITION_JUMP_AND1: u8 = 0xb0;
pub const CONDITION_JUMP_OR1: u8 = 0xb8;
pub const CONDITION_JUMP_OR8: u8 = 0xbf;
pub const UNKNOWN_CMD_C7: u8 = 0xc7;
pub const SET_EVENT_BIT: u8 = 0xc8;
pub const CLEAR_EVENT_BIT: u8 = 0xc9;
pub const TURN_CHARACTER_UP: u8 = 0xcc;
pub const TURN_CHARACTER_RIGHT: u8 = 0xcd;
pub const TURN_CHARACTER_DOWN: u8 = 0xce;
pub const TURN_CHARACTER_LEFT: u8 = 0xcf;
pub const SHOW_CHARACTER: u8 = 0xd0;
pub const HIDE_CHARACTER: u8 = 0xd1;
pub const LOAD_MAP: u8 = 0xd2;
pub const LOAD_MAP2: u8 = 0xd3;
pub const UNFADE_SCREEN: u8 = 0xd8;
pub const FADE_SCREEN: u8 = 0xd9;
pub const HIDE_MINI_MAP: u8 = 0xdd;
pub const SHOW_MINI_MAP: u8 = 0xdf;
pub const PAUSE: u8 = 0xe0;
/// Ends a world character script.
pub const END: u8 = 0xff;

/// One event bit and the state it is tested for.
#[derive(Clone, Copy, Debug, PartialEq, Eq, Structural)]
pub struct Condition {
    pub byte: u16,
    pub bit: u8,
    pub is_set: bool,
}

/// How the conditions of a conditional jump combine.
#[derive(Clone, Copy, Debug, PartialEq, Eq, Structural)]
pub enum CondOp {
    Or,
    And,
}

#[derive(Clone, Copy, Debug, PartialEq, Eq, Structural)]
pub enum Direction {
    Up,
    Right,
    Down,
    Left,
}

#[derive(Clone, Copy, Debug, PartialEq, Eq, Structural)]
pub enum Diagonal {
    RightUp,
    RightDown,
    LeftUp,
    LeftDown,
}

#[derive(Clone, Copy, Debug, PartialEq, Eq, Structural)]
pub enum Speed {
    Slowest,
    Slow,
    Normal,
    Fast,
    Fastest,
}

/// An instruction of the world character dialect.
#[derive(Clone, Debug, PartialEq)]
pub enum Event {
    ClrSetEventBit { set: bool, byte: u16, bit: u8 },
    ConditionalJump { op: CondOp, conditions: Vec<Condition>, addr: u32 },
    EntitySpeed { speed: Speed },
    FadeScreen,
    GraphicalAction { action: u8, flipped: bool },
    HideCharacter,
    HideMiniMap,
    LoadMap { map: u16, x: u8, y: u8, mode: u8, variant: u8 },
    /// `dir` is the raw two-bit direction code of the instruction.
    Move { dir: u8, steps: u8 },
    MoveDiag { dir: Diagonal, steps: [u8; 2] },
    Pause { frames: u8 },
    ShowCharacter,
    ShowMiniMap,
    TurnCharacter { dir: Direction },
    UnfadeScreen,
    UnknownCmdC7 { args: [u8; 2] },
}

/// A world character script: the instructions before its `END`.
#[derive(Clone, Debug, PartialEq)]
pub struct Script {
    pub events: Vec<Event>,
}

/// The condition packed in a 16-bit operand: bit 15 is the expected state,
/// bits 3 to 14 the byte of the event bit, bits 0 to 2 the bit in that byte.
pub open spec fn condition_of(v: int) -> Condition {
    Condition { byte: ((v / 8) % 0x1000) as u16, bit: (v % 8) as u8, is_set: v / 0x8000 == 1 }
}

/// Decodes a packed condition operand.
pub fn decode_condition(v: u16) -> (r: Condition)
    ensures
        r == condition_of(v as int),
{
    let byte: u16 = (v >> 3u16) & 0xfffu16;
    let bit: u16 = v & 0x7u16;
    let is_set = (v >> 15u16) == 1u16;
    assert(byte == (v / 8) % 0x1000 && bit == v % 8 && ((v >> 15u16) == 1u16) == (v / 0x8000
        == 1)) by (bit_vector)
        requires byte == (v >> 3u16) & 0xfffu16, bit == v & 0x7u16;
    Condition { byte, bit: bit as u8, is_set }
}

pub open spec fn is_cond_jump(tag: u8) -> bool {
    in_range(tag, CONDITION_JUMP_AND1, CONDITION_JUMP_OR8)
}

/// How many conditions the conditional jump with this tag carries.
pub open spec fn cond_count(tag: u8) -> int {
    (tag - CONDITION_JUMP_AND1) % 8 + 1
}

/// The operator of the conditional jump with this tag.
pub open spec fn cond_op(tag: u8) -> CondOp {
    if tag < CONDITION_JUMP_OR1 {
        CondOp::And
    } else {
        CondOp::Or
    }
}

/// Length in bytes, tag included, of the instruction with this tag.
pub open spec fn event_len(tag: u8) -> Option<int> {
    if tag <= 0xab {
        Some(1)
    } else if in_range(tag, 0xb0, 0xbf) {
        Some(4 + 2 * cond_count(tag))
    } else if in_range(tag, 0xc0, 0xc4) || in_range(tag, 0xcc, 0xd1) || tag == UNFADE_SCREEN
        || tag == FADE_SCREEN || tag == HIDE_MINI_MAP || tag == SHOW_MINI_MAP {
        Some(1)
    } else if in_range(tag, 0xc7, 0xc9) {
        Some(3)
    } else if tag == LOAD_MAP || tag == LOAD_MAP2 {
        Some(6)
    } else if tag == PAUSE {
        Some(2)
    } else {
        None
    }
}

/// The instruction that a lone tag byte is, for the instructions without operands.
pub open spec fn zero_operand_event(tag: u8) -> Option<Event> {
    if tag == 0xc0 {
        Some(Event::EntitySpeed { speed: Speed::Slowest })
    } else if tag == 0xc1 {
        Some(Event::EntitySpeed { speed: Speed::Slow })
    } else if tag == 0xc2 {
        Some(Event::EntitySpeed { speed: Speed::Normal })
    } else if tag == 0xc3 {
        Some(Event::EntitySpeed { speed: Speed::Fast })
    } else if tag == 0xc4 {
        Some(Event::EntitySpeed { speed: Speed::Fastest })
    } else if tag == 0xa0 {
        Some(Event::MoveDiag { dir: Diagonal::RightUp, steps: [1u8, 1u8] })
    } else if tag == 0xa1 {
        Some(Event::MoveDiag { dir: Diagonal::RightDown, steps: [1u8, 1u8] })
    } else if tag == 0xa2 {
        Some(Event::MoveDiag { dir: Diagonal::LeftDown, steps: [1u8, 1u8] })
    } else if tag == 0xa3 {
        Some(Event::MoveDiag { dir: Diagonal::LeftUp, steps: [1u8, 1u8] })
    } else if tag == 0xa4 {
        Some(Event::MoveDiag { dir: Diagonal::RightUp, steps: [1u8, 2u8] })
    } else if tag == 0xa5 {
        Some(Event::MoveDiag { dir: Diagonal::RightUp, steps: [2u8, 1u8] })
    } else if tag == 0xa6 {
        Some(Event::MoveDiag { dir: Diagonal::RightDown, steps: [2u8, 1u8] })
    } else if tag == 0xa7 {
        Some(Event::MoveDiag { dir: Diagonal::RightDown, steps: [1u8, 2u8] })
    } else if tag == 0xa8 {
        Some(Event::MoveDiag { dir: Diagonal::LeftDown, steps: [1u8, 2u8] })
    } else if tag == 0xa9 {
        Some(Event::MoveDiag { dir: Diagonal::LeftDown, steps: [2u8, 1u8] })
    } else if tag == 0xaa {
        Some(Event::MoveDiag { dir: Diagonal::LeftUp, steps: [2u8, 1u8] })
    } else if tag == 0xab {
        Some(Event::MoveDiag { dir: Diagonal::LeftUp, steps: [1u8, 2u8] })
    } else if tag == TURN_CHARACTER_UP {
        Some(Event::TurnCharacter { dir: Direction::Up })
    } else if tag == TURN_CHARACTER_RIGHT {
        Some(Event::TurnCharacter { dir: Direction::Right })
    } else if tag == TURN_CHARACTER_DOWN {
        Some(Event::TurnCharacter { dir: Direction::Down })
    } else if tag == TURN_CHARACTER_LEFT {
        Some(Event::TurnCharacter { dir: Direction::Left })
    } else if tag == SHOW_CHARACTER {
        Some(Event::ShowCharacter)
    } else if tag == HIDE_CHARACTER {
        Some(Event::HideCharacter)
    } else if tag == UNFADE_SCREEN {
        Some(Event::UnfadeScreen)
    } else if tag == FADE_SCREEN {
        Some(Event::FadeScreen)
    } else if tag == HIDE_MINI_MAP {
        Some(Event::HideMiniMap)
    } else if tag == SHOW_MINI_MAP {
        Some(Event::ShowMiniMap)
    } else {
        None
    }
}

/// Why the instruction at `pos` cannot be decoded, if it can not.
pub open spec fn event_error(data: Seq<u8>, pos: int) -> Option<ParseError> {
    if pos < 0 || pos >= data.len() {
        Some(ParseError::Truncated { offset: pos as usize })
    } else {
        match event_len(data[pos]) {
            Some(n) => if pos + n > data.len() {
                Some(ParseError::Truncated { offset: pos as usize })
            } else {
                None
            },
            None => Some(ParseError::UnrecognizedTag { tag: data[pos], offset: pos as usize }),
        }
    }
}

/// Where the instruction at `pos` ends.
pub open spec fn event_next(data: Seq<u8>, pos: int) -> int {
    match event_len(data[pos]) {
        Some(n) => pos + n,
        None => pos,
    }
}

/// Whether `e` is the instruction encoded at `pos`.
pub open spec fn event_at(data: Seq<u8>, pos: int, e: Event) -> bool {
    let tag = data[pos];
    match e {
        Event::ClrSetEventBit { set, byte, bit } => {
            &&& in_range(tag, SET_EVENT_BIT, CLEAR_EVENT_BIT)
            &&& set == (tag == SET_EVENT_BIT)
            &&& byte == spec_u16(data, pos + 1) / 8
            &&& bit == spec_u16(data, pos + 1) % 8
        },
        Event::ConditionalJump { op, conditions, addr } => {
            &&& is_cond_jump(tag)
            &&& op == cond_op(tag)
            &&& conditions@.len() == cond_count(tag)
            &&& forall|k: int|
                0 <= k < conditions@.len() ==> #[trigger] conditions@[k] == condition_of(
                    spec_u16(data, pos + 1 + 2 * k),
                )
            &&& addr == spec_u24(data, pos + 1 + 2 * cond_count(tag))
        },
        Event::GraphicalAction { action, flipped } => {
            &&& tag <= 0x7f
            &&& action == tag & 0x3fu8
            &&& flipped == (tag >> 6u8 == 1u8)
        },
        Event::LoadMap { map, x, y, mode, variant } => {
            &&& (tag == LOAD_MAP || tag == LOAD_MAP2)
            &&& map == spec_u16(data, pos + 1)
            &&& x == data[pos + 3]
            &&& y == data[pos + 4]
            &&& mode == data[pos + 5]
            &&& variant == tag
        },
        Event::Move { dir, steps } => {
            &&& in_range(tag, 0x80, 0x9f)
            &&& steps == (tag >> 2u8) & 0x7u8
            &&& dir == tag & 0x3u8
        },
        Event::Pause { frames } => tag == PAUSE && frames == data[pos + 1],
        Event::UnknownCmdC7 { args } => tag == UNKNOWN_CMD_C7 && args@ == seq![
            data[pos + 1],
            data[pos + 2],
        ],
        _ => zero_operand_event(tag) == Some(e),
    }
}

/// An instruction that decodes takes at least its tag byte.
pub proof fn lemma_event_advances(data: Seq<u8>, pos: int)
    requires
        event_error(data, pos) is None,
    ensures
        pos < event_next(data, pos) <= data.len(),
{
}

/// Every instruction without operands decodes from its tag byte alone, to
/// exactly its own variant, and takes one byte.
pub proof fn lemma_zero_operand(data: Seq<u8>, pos: int)
    requires
        0 <= pos < data.len(),
        zero_operand_event(data[pos]) is Some,
    ensures
        event_error(data, pos) is None,
        event_next(data, pos) == pos + 1,
        forall|e: Event| event_at(data, pos, e) <==> e == zero_operand_event(data[pos])->Some_0,
{
}

/// A conditional jump decodes to the operator of its tag (`And` for the
/// first eight tags, `Or` for the last eight), exactly as many conditions as
/// its tag's place in its block of eight, in the order encoded, and the
/// 24-bit little-endian address that follows them.
pub proof fn lemma_conditional_jump(data: Seq<u8>, pos: int)
    requires
        0 <= pos < data.len(),
        is_cond_jump(data[pos]),
        pos + 4 + 2 * cond_count(data[pos]) <= data.len(),
    ensures
        event_error(data, pos) is None,
        event_next(data, pos) == pos + 4 + 2 * cond_count(data[pos]),
        1 <= cond_count(data[pos]) <= 8,
        cond_count(data[pos]) == data[pos] as int - (if data[pos] < 0xb8 { 0xafint } else { 0xb7int }),
        forall|e: Event|
            event_at(data, pos, e) <==> match e {
                Event::ConditionalJump { op, conditions, addr } => {
                    &&& op == (if data[pos] < 0xb8 { CondOp::And } else { CondOp::Or })
                    &&& conditions@ == Seq::new(
                        cond_count(data[pos]) as nat,
                        |k: int| condition_of(spec_u16(data, pos + 1 + 2 * k)),
                    )
                    &&& addr == data[pos + 1 + 2 * cond_count(data[pos])] as int + 0x100 * data[pos
                        + 2 + 2 * cond_count(data[pos])] as int + 0x10000 * data[pos + 3 + 2
                        * cond_count(data[pos])] as int
                },
                _ => false,
            },
{
    assert forall|e: Event| event_at(data, pos, e) <==> match e {
        Event::ConditionalJump { op, conditions, addr } => {
            &&& op == (if data[pos] < 0xb8 { CondOp::And } else { CondOp::Or })
            &&& conditions@ == Seq::new(
                cond_count(data[pos]) as nat,
                |k: int| condition_of(spec_u16(data, pos + 1 + 2 * k)),
            )
            &&& addr == data[pos + 1 + 2 * cond_count(data[pos])] as int + 0x100 * data[pos + 2 + 2
                * cond_count(data[pos])] as int + 0x10000 * data[pos + 3 + 2 * cond_count(
                data[pos],
            )] as int
        },
        _ => false,
    } by {
        if let Event::ConditionalJump { op, conditions, addr } = e {
            if event_at(data, pos, e) {
                assert(conditions@ =~= Seq::new(
                    cond_count(data[pos]) as nat,
                    |k: int| condition_of(spec_u16(data, pos + 1 + 2 * k)),
                ));
            }
        }
    }
}

/// Bytes 0x00 to 0x3f are graphical actions of that number, unflipped;
/// bytes 0x40 to 0x7f are the same actions flipped.
pub proof fn lemma_graphical_action(data: Seq<u8>, pos: int)
    requires
        0 <= pos < data.len(),
        data[pos] <= 0x7f,
    ensures
        event_error(data, pos) is None,
        event_next(data, pos) == pos + 1,
        forall|e: Event|
            event_at(data, pos, e) <==> e == (Event::GraphicalAction {
                action: (data[pos] % 0x40) as u8,
                flipped: data[pos] >= 0x40,
            }),
{
    let t = data[pos];
    assert(t & 0x3fu8 == t % 0x40 && (t >> 6u8 == 1u8) == (t >= 0x40)) by (bit_vector)
        requires t <= 0x7f;
}

/// The movement byte `0x80 | steps << 2 | dir` decodes to that direction code
/// and step count.
pub proof fn lemma_movement(data: Seq<u8>, pos: int, dir: u8, steps: u8)
    requires
        0 <= pos < data.len(),
        dir <= 3,
        steps <= 7,
        data[pos] == 0x80u8 | (steps << 2u8) | dir,
    ensures
        event_error(data, pos) is None,
        event_next(data, pos) == pos + 1,
        forall|e: Event| event_at(data, pos, e) <==> e == (Event::Move { dir, steps }),
{
    let t = data[pos];
    assert(0x80 <= t <= 0x9f && (t >> 2u8) & 0x7u8 == steps && t & 0x3u8 == dir) by (bit_vector)
        requires dir <= 3, steps <= 7, t == 0x80u8 | (steps << 2u8) | dir;
}

fn event_len_of(tag: u8) -> (r: Option<usize>)
    ensures
        match r {
            Some(n) => event_len(tag) == Some(n as int),
            None => event_len(tag) is None,
        },
{
    if tag <= 0xab {
        Some(1)
    } else if tag_in_range(tag, 0xb0, 0xbf) {
        Some(4 + 2 * (((tag - CONDITION_JUMP_AND1) % 8 + 1) as usize))
    } else if tag_in_range(tag, 0xc0, 0xc4) || tag_in_range(tag, 0xcc, 0xd1) || tag
        == UNFADE_SCREEN || tag == FADE_SCREEN || tag == HIDE_MINI_MAP || tag == SHOW_MINI_MAP {
        Some(1)
    } else if tag_in_range(tag, 0xc7, 0xc9) {
        Some(3)
    } else if tag == LOAD_MAP || tag == LOAD_MAP2 {
        Some(6)
    } else if tag == PAUSE {
        Some(2)
    } else {
        None
    }
}

fn zero_operand_event_of(tag: u8) -> (r: Option<Event>)
    ensures
        r == zero_operand_event(tag),
{
    if tag == 0xc0 {
        Some(Event::EntitySpeed { speed: Speed::Slowest })
    } else if tag == 0xc1 {
        Some(Event::EntitySpeed { speed: Speed::Slow })
    } else if tag == 0xc2 {
        Some(Event::EntitySpeed { speed: Speed::Normal })
    } else if tag == 0xc3 {
        Some(Event::EntitySpeed { speed: Speed::Fast })
    } else if tag == 0xc4 {
        Some(Event::EntitySpeed { speed: Speed::Fastest })
    } else if tag == 0xa0 {
        Some(Event::MoveDiag { dir: Diagonal::RightUp, steps: [1u8, 1u8] })
    } else if tag == 0xa1 {
        Some(Event::MoveDiag { dir: Diagonal::RightDown, steps: [1u8, 1u8] })
    } else if tag == 0xa2 {
        Some(Event::MoveDiag { dir: Diagonal::LeftDown, steps: [1u8, 1u8] })
    } else if tag == 0xa3 {
        Some(Event::MoveDiag { dir: Diagonal::LeftUp, steps: [1u8, 1u8] })
    } else if tag == 0xa4 {
        Some(Event::MoveDiag { dir: Diagonal::RightUp, steps: [1u8, 2u8] })
    } else if tag == 0xa5 {
        Some(Event::MoveDiag { dir: Diagonal::RightUp, steps: [2u8, 1u8] })
    } else if tag == 0xa6 {
        Some(Event::MoveDiag { dir: Diagonal::RightDown, steps: [2u8, 1u8] })
    } else if tag == 0xa7 {
        Some(Event::MoveDiag { dir: Diagonal::RightDown, steps: [1u8, 2u8] })
    } else if tag == 0xa8 {
        Some(Event::MoveDiag { dir: Diagonal::LeftDown, steps: [1u8, 2u8] })
    } else if tag == 0xa9 {
        Some(Event::MoveDiag { dir: Diagonal::LeftDown, steps: [2u8, 1u8] })
    } else if tag == 0xaa {
        Some(Event::MoveDiag { dir: Diagonal::LeftUp, steps: [2u8, 1u8] })
    } else if tag == 0xab {
        Some(Event::MoveDiag { dir: Diagonal::LeftUp, steps: [1u8, 2u8] })
    } else if tag == TURN_CHARACTER_UP {
        Some(Event::TurnCharacter { dir: Direction::Up })
    } else if tag == TURN_CHARACTER_RIGHT {
        Some(Event::TurnCharacter { dir: Direction::Right })
    } else if tag == TURN_CHARACTER_DOWN {
        Some(Event::TurnCharacter { dir: Direction::Down })
    } else if tag == TURN_CHARACTER_LEFT {
        Some(Event::TurnCharacter { dir: Direction::Left })
    } else if tag == SHOW_CHARACTER {
        Some(Event::ShowCharacter)
    } else if tag == HIDE_CHARACTER {
        Some(Event::HideCharacter)
    } else if tag == UNFADE_SCREEN {
        Some(Event::UnfadeScreen)
    } else if tag == FADE_SCREEN {
        Some(Event::FadeScreen)
    } else if tag == HIDE_MINI_MAP {
        Some(Event::HideMiniMap)
    } else if tag == SHOW_MINI_MAP {
        Some(Event::ShowMiniMap)
    } else {
        None
    }
}

fn parse_conditional_jump(data: &[u8], pos: usize) -> (r: Event)
    requires
        pos < data@.len(),
        is_cond_jump(data@[pos as int]),
        pos + 4 + 2 * cond_count(data@[pos as int]) <= data@.len(),
    ensures
        event_at(data@, pos as int, r),
{
    let tag = data[pos];
    let n: usize = ((tag - CONDITION_JUMP_AND1) % 8 + 1) as usize;
    let len = data.len();
    let mut conditions: Vec<Condition> = Vec::new();
    let mut k: usize = 0;
    while k < n
        invariant
            k <= n,
            pos < data@.len(),
            len == data@.len(),
            n == cond_count(data@[pos as int]),
            pos + 4 + 2 * n <= data@.len(),
            conditions@.len() == k,
            forall|j: int|
                0 <= j < k ==> #[trigger] conditions@[j] == condition_of(
                    spec_u16(data@, pos + 1 + 2 * j),
                ),
        decreases n - k,
    {
        let v = read_u16(data, pos + 1 + 2 * k);
        conditions.push(decode_condition(v));
        k = k + 1;
    }
    let addr = read_u24(data, pos + 1 + 2 * n);
    let op = if tag < CONDITION_JUMP_OR1 {
        CondOp::And
    } else {
        CondOp::Or
    };
    Event::ConditionalJump { op, conditions, addr }
}

/// Decodes the world character instruction at `pos`; on success also returns
/// where it ends.
pub fn parse_event(data: &[u8], pos: usize) -> (r: Result<(Event, usize), ParseError>)
    requires
        pos <= data@.len(),
    ensures
        match r {
            Ok((e, next)) => event_error(data@, pos as int) is None && next == event_next(
                data@,
                pos as int,
            ) && event_at(data@, pos as int, e),
            Err(err) => event_error(data@, pos as int) == Some(err),
        },
{
    if pos >= data.len() {
        return Err(ParseError::Truncated { offset: pos });
    }
    let tag = data[pos];
    let n = match event_len_of(tag) {
        Some(n) => n,
        None => {
            return Err(ParseError::UnrecognizedTag { tag, offset: pos });
        },
    };
    if data.len() - pos < n {
        return Err(ParseError::Truncated { offset: pos });
    }
    let e = if tag <= 0x7f {
        Event::GraphicalAction { action: tag & 0x3fu8, flipped: (tag >> 6u8) == 1u8 }
    } else if tag <= 0x9f {
        Event::Move { steps: (tag >> 2u8) & 0x7u8, dir: tag & 0x3u8 }
    } else if tag_in_range(tag, CONDITION_JUMP_AND1, CONDITION_JUMP_OR8) {
        parse_conditional_jump(data, pos)
    } else if tag == SET_EVENT_BIT || tag == CLEAR_EVENT_BIT {
        let v = read_u16(data, pos + 1);
        let byte: u16 = v >> 3u16;
        let bit: u16 = v & 0x7u16;
        assert(byte == v / 8 && bit == v % 8) by (bit_vector)
            requires byte == v >> 3u16, bit == v & 0x7u16;
        Event::ClrSetEventBit { set: tag == SET_EVENT_BIT, byte, bit: bit as u8 }
    } else if tag == LOAD_MAP || tag == LOAD_MAP2 {
        Event::LoadMap {
            map: read_u16(data, pos + 1),
            x: data[pos + 3],
            y: data[pos + 4],
            mode: data[pos + 5],
            variant: tag,
        }
    } else if tag == PAUSE {
        Event::Pause { frames: data[pos + 1] }
    } else if tag == UNKNOWN_CMD_C7 {
        let args = [data[pos + 1], data[pos + 2]];
        assert(args@ =~= seq![data@[pos + 1], data@[pos + 2]]);
        Event::UnknownCmdC7 { args }
    } else {
        match zero_operand_event_of(tag) {
            Some(e) => e,
            None => {
                return Err(ParseError::UnrecognizedTag { tag, offset: pos });
            },
        }
    };
    Ok((e, pos + n))
}

/// Why the world character script starting at `pos` cannot be decoded, if it can not.
pub open spec fn script_error(data: Seq<u8>, pos: int) -> Option<ParseError>
    decreases data.len() - pos,
{
    if pos < 0 || pos >= data.len() {
        Some(ParseError::Truncated { offset: pos as usize })
    } else if data[pos] == END {
        None
    } else if event_error(data, pos) is Some {
        event_error(data, pos)
    } else if event_next(data, pos) <= pos || event_next(data, pos) > data.len() {
        None
    } else {
        script_error(data, event_next(data, pos))
    }
}

/// Where the world character script starting at `pos` ends: just past its `END`.
pub open spec fn script_end(data: Seq<u8>, pos: int) -> int
    decreases data.len() - pos,
{
    if pos < 0 || pos >= data.len() {
        pos
    } else if data[pos] == END {
        pos + 1
    } else if event_error(data, pos) is Some || event_next(data, pos) <= pos || event_next(
        data,
        pos,
    ) > data.len() {
        pos
    } else {
        script_end(data, event_next(data, pos))
    }
}

/// Whether `events` are the instructions of the world character script starting at `pos`.
pub open spec fn script_at(data: Seq<u8>, pos: int, events: Seq<Event>) -> bool
    decreases events.len(),
{
    if events.len() == 0 {
        0 <= pos < data.len() && data[pos] == END
    } else {
        &&& 0 <= pos < data.len()
        &&& data[pos] != END
        &&& event_error(data, pos) is None
        &&& event_at(data, pos, events[0])
        &&& script_at(data, event_next(data, pos), events.drop_first())
    }
}

/// Whether `events` decode one after another from `pos` up to `end`, with no
/// `END` among them.
pub open spec fn events_between(data: Seq<u8>, pos: int, events: Seq<Event>, end: int) -> bool
    decreases events.len(),
{
    if events.len() == 0 {
        pos == end
    } else {
        &&& 0 <= pos < data.len()
        &&& data[pos] != END
        &&& event_error(data, pos) is None
        &&& event_at(data, pos, events[0])
        &&& events_between(data, event_next(data, pos), events.drop_first(), end)
    }
}

proof fn lemma_events_between_push(data: Seq<u8>, pos: int, events: Seq<Event>, i: int, e: Event)
    requires
        events_between(data, pos, events, i),
        0 <= i < data.len(),
        data[i] != END,
        event_error(data, i) is None,
        event_at(data, i, e),
    ensures
        events_between(data, pos, events.push(e), event_next(data, i)),
    decreases events.len(),
{
    if events.len() == 0 {
        assert(events.push(e)[0] == e);
        assert(events.push(e).drop_first() =~= Seq::<Event>::empty());
        assert(events_between(data, event_next(data, i), Seq::<Event>::empty(), event_next(data, i)));
    } else {
        assert(events.push(e)[0] == events[0]);
        lemma_events_between_push(data, event_next(data, pos), events.drop_first(), i, e);
        assert(events.push(e).drop_first() =~= events.drop_first().push(e));
    }
}

proof fn lemma_events_between_script(data: Seq<u8>, pos: int, events: Seq<Event>, i: int)
    requires
        events_between(data, pos, events, i),
        0 <= i < data.len(),
        data[i] == END,
    ensures
        script_at(data, pos, events),
    decreases events.len(),
{
    if events.len() > 0 {
        lemma_events_between_script(data, event_next(data, pos), events.drop_first(), i);
    }
}

/// A script that decodes ends after its first byte and within the data.
pub proof fn lemma_script_end_bounds(data: Seq<u8>, pos: int)
    requires
        script_error(data, pos) is None,
    ensures
        pos < script_end(data, pos) <= data.len(),
    decreases data.len() - pos,
{
    if 0 <= pos < data.len() && data[pos] != END {
        lemma_event_advances(data, pos);
        lemma_script_end_bounds(data, event_next(data, pos));
    }
}

/// The instruction at `pos` decodes the same wherever its bytes stand: moved
/// by `delta`, with more bytes after them or not (then only if it did not run
/// out of bytes).
pub proof fn lemma_event_frame(d1: Seq<u8>, d2: Seq<u8>, delta: int, pos: int)
    requires
        agree_from(d1, d2, pos, delta),
        pos <= d1.len(),
        d2.len() <= usize::MAX,
        d1.len() + delta == d2.len() || !is_truncated(event_error(d1, pos)),
    ensures
        event_error(d2, pos + delta) == shift_error(event_error(d1, pos), delta),
        event_error(d1, pos) is None ==> event_next(d2, pos + delta) == event_next(d1, pos)
            + delta,
        event_error(d1, pos) is None ==> forall|e: Event|
            event_at(d1, pos, e) == event_at(d2, pos + delta, e),
{
    assert(((pos as usize) as int + delta) as usize == (pos + delta) as usize);
    if pos < d1.len() {
        let tag = d1[pos];
        assert(d2[pos + delta] == tag);
        if event_error(d1, pos) is None {
            let n = event_len(tag)->Some_0;
            assert forall|k: int| 0 < k < n implies #[trigger] d1[pos + k] == d2[pos + delta + k] by {
                assert(d2[(pos + k) + delta] == d1[pos + k]);
            }
            if n >= 3 {
                assert(spec_u16(d1, pos + 1) == spec_u16(d2, pos + delta + 1));
            }
            if is_cond_jump(tag) {
                let c = cond_count(tag);
                assert forall|k: int| 0 <= k < c implies #[trigger] spec_u16(d1, pos + 1 + 2 * k)
                    == spec_u16(d2, pos + delta + 1 + 2 * k) by {
                    assert(d2[(pos + 1 + 2 * k) + delta] == d1[pos + 1 + 2 * k]);
                    assert(d2[(pos + 1 + 2 * k + 1) + delta] == d1[pos + 1 + 2 * k + 1]);
                }
                assert(d2[(pos + 1 + 2 * c) + delta] == d1[pos + 1 + 2 * c]);
                assert(d2[(pos + 1 + 2 * c + 1) + delta] == d1[pos + 1 + 2 * c + 1]);
                assert(d2[(pos + 1 + 2 * c + 2) + delta] == d1[pos + 1 + 2 * c + 2]);
                assert(spec_u24(d1, pos + 1 + 2 * c) == spec_u24(d2, pos + delta + 1 + 2 * c));
                assert forall|e: Event| event_at(d1, pos, e) == event_at(d2, pos + delta, e) by {
                    if let Event::ConditionalJump { op, conditions, addr } = e {
                        if conditions@.len() == c {
                            assert((forall|k: int|
                                0 <= k < c ==> #[trigger] conditions@[k] == condition_of(
                                    spec_u16(d1, pos + 1 + 2 * k),
                                )) <==> (forall|k: int|
                                0 <= k < c ==> #[trigger] conditions@[k] == condition_of(
                                    spec_u16(d2, pos + delta + 1 + 2 * k),
                                ))) by {
                                assert forall|k: int| 0 <= k < c implies spec_u16(
                                    d1,
                                    pos + 1 + 2 * k,
                                ) == #[trigger] spec_u16(d2, pos + delta + 1 + 2 * k) by {}
                            }
                        }
                    }
                }
            }
        }
    }
}

/// The script at `pos` decodes the same wherever its bytes stand: moved by
/// `delta`, with more bytes after them or not (then only if it did not run out
/// of bytes).
pub proof fn lemma_script_frame(d1: Seq<u8>, d2: Seq<u8>, delta: int, pos: int)
    requires
        agree_from(d1, d2, pos, delta),
        pos <= d1.len(),
        d2.len() <= usize::MAX,
        d1.len() + delta == d2.len() || !is_truncated(script_error(d1, pos)),
    ensures
        script_error(d2, pos + delta) == shift_error(script_error(d1, pos), delta),
        script_error(d1, pos) is None ==> script_end(d2, pos + delta) == script_end(d1, pos)
            + delta,
        script_error(d1, pos) is None ==> forall|events: Seq<Event>|
            script_at(d1, pos, events) == script_at(d2, pos + delta, events),
    decreases d1.len() - pos,
{
    assert(((pos as usize) as int + delta) as usize == (pos + delta) as usize);
    if pos < d1.len() {
        assert(d2[pos + delta] == d1[pos]);
        if d1[pos] != END {
            lemma_event_frame(d1, d2, delta, pos);
            if event_error(d1, pos) is None {
                lemma_event_advances(d1, pos);
                let next = event_next(d1, pos);
                lemma_script_frame(d1, d2, delta, next);
                if script_error(d1, pos) is None {
                    assert forall|events: Seq<Event>|
                        script_at(d1, pos, events) == script_at(d2, pos + delta, events) by {
                        if events.len() > 0 {
                            assert(script_at(d1, next, events.drop_first()) == script_at(
                                d2,
                                next + delta,
                                events.drop_first(),
                            ));
                        }
                    }
                }
            }
        }
    }
}

/// Decodes the world character script starting at `pos`, up to and including its `END`;
/// on success also returns where it ends.
pub fn parse_script(data: &[u8], pos: usize) -> (r: Result<(Script, usize), ParseError>)
    requires
        pos <= data@.len(),
    ensures
        match r {
            Ok((s, end)) => script_error(data@, pos as int) is None && end == script_end(
                data@,
                pos as int,
            ) && script_at(data@, pos as int, s.events@),
            Err(err) => script_error(data@, pos as int) == Some(err),
        },
{
    let mut events: Vec<Event> = Vec::new();
    let mut i: usize = pos;
    loop
        invariant
            pos <= i <= data@.len(),
            script_error(data@, pos as int) == script_error(data@, i as int),
            script_end(data@, pos as int) == script_end(data@, i as int),
            events_between(data@, pos as int, events@, i as int),
        decreases data@.len() - i,
    {
        if i >= data.len() {
            return Err(ParseError::Truncated { offset: i });
        }
        if data[i] == END {
            proof {
                lemma_events_between_script(data@, pos as int, events@, i as int);
            }
            return Ok((Script { events }, i + 1));
        }
        match parse_event(data, i) {
            Ok((e, next)) => {
                proof {
                    lemma_event_advances(data@, i as int);
                    lemma_events_between_push(data@, pos as int, events@, i as int, e);
                }
                events.push(e);
                i = next;
            },
            Err(err) => {
                return Err(err);
            },
        }
    }
}

} // verus!
