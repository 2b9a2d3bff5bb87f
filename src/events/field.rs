use vstd::prelude::*;

use crate::events::action::{action_of, parse_action, Action};
use crate::events::utils::{agree_from, in_range, is_truncated, shift_error, read_u16, read_u24, spec_u16, spec_u24, tag_in_range};
use crate::events::ParseError;

verus! {

pub const MAKE_CHAR0_LEAD: u8 = 0x47;
pub const DIALOG_WAIT: u8 = 0x49;
pub const DISP_TEXT_BOX_WAIT: u8 = 0x4b;
pub const INVOKE_BATTLE: u8 = 0x4e;
pub const INVOKE_BATTLE_ON_CHEST_OPEN: u8 = 0x8e;
pub const UNFADE_SCREEN: u8 = 0x96;
pub const CALL: u8 = 0xb2;
pub const JUMP_IF_BATTLE_SWITCH: u8 = 0xb7;
pub const BRANCH_IF_EVENT_BIT: u8 = 0xc0;
/// Ends a field script.
pub const RET: u8 = 0xfe;
pub const NOP: u8 = 0xff;
/// Ends the action list of an action queue.
pub const QUEUE_END: u8 = 0xff;

/// The party slot whose action queue an instruction fills; each slot has its
/// own instruction tag.
#[derive(Clone, Copy, Debug, PartialEq, Eq, Structural)]
pub enum ActionQueue {
    FirstPartyMember,
    SecondPartyMember,
    ThirdPartyMember,
    FourthPartyMember,
}

impl ActionQueue {
    pub open spec fn spec_tag(self) -> u8 {
        match self {
            ActionQueue::FirstPartyMember => 0x31,
            ActionQueue::SecondPartyMember => 0x32,
            ActionQueue::ThirdPartyMember => 0x33,
            ActionQueue::FourthPartyMember => 0x34,
        }
    }

    /// The instruction tag of this slot's action queue.
    pub fn tag(self) -> (r: u8)
        ensures
            r == self.spec_tag(),
    {
        match self {
            ActionQueue::FirstPartyMember => 0x31,
            ActionQueue::SecondPartyMember => 0x32,
            ActionQueue::ThirdPartyMember => 0x33,
            ActionQueue::FourthPartyMember => 0x34,
        }
    }
}

/// An instruction of the field dialect.
#[derive(Clone, Debug, PartialEq)]
pub enum Event {
    ActionQueue { queue_id: u8, actions: Vec<Action>, wait: u8, len: u8 },
    BranchIfEventBit { bit: u16, addr: u32 },
    Call { addr: u32 },
    Dialog { msg: u16, wait: bool },
    DialogWait,
    InvokeBattle,
    InvokeBattleOnChestOpen,
    JumpIfBattleSwitch { switch: u8, addr: u32 },
    MakeChar0Lead,
    Nop,
    UnfadeScreen,
}

/// A field script: the instructions before its `RET`.
#[derive(Clone, Debug, PartialEq)]
pub struct Script {
    pub events: Vec<Event>,
}

/// Whether `tag` starts an action queue.
pub open spec fn is_queue_tag(tag: u8) -> bool {
    in_range(tag, 0x31, 0x34)
}

/// Length in bytes, tag included, of an instruction of fixed length.
pub open spec fn fixed_len(tag: u8) -> Option<int> {
    if tag == DIALOG_WAIT || tag == INVOKE_BATTLE || tag == INVOKE_BATTLE_ON_CHEST_OPEN
        || tag == MAKE_CHAR0_LEAD || tag == NOP || tag == UNFADE_SCREEN {
        Some(1)
    } else if tag == BRANCH_IF_EVENT_BIT {
        Some(6)
    } else if tag == CALL {
        Some(4)
    } else if tag == DISP_TEXT_BOX_WAIT {
        Some(3)
    } else if tag == JUMP_IF_BATTLE_SWITCH {
        Some(5)
    } else {
        None
    }
}

/// The instruction that a lone tag byte is, for the instructions without operands.
pub open spec fn zero_operand_event(tag: u8) -> Option<Event> {
    if tag == DIALOG_WAIT {
        Some(Event::DialogWait)
    } else if tag == INVOKE_BATTLE {
        Some(Event::InvokeBattle)
    } else if tag == INVOKE_BATTLE_ON_CHEST_OPEN {
        Some(Event::InvokeBattleOnChestOpen)
    } else if tag == MAKE_CHAR0_LEAD {
        Some(Event::MakeChar0Lead)
    } else if tag == NOP {
        Some(Event::Nop)
    } else if tag == UNFADE_SCREEN {
        Some(Event::UnfadeScreen)
    } else {
        None
    }
}

/// Scans the action list of the queue instruction at `start` from index `i`:
/// the index of its `QUEUE_END`, or why there is none.
pub open spec fn queue_end(data: Seq<u8>, start: int, i: int) -> Result<int, ParseError>
    decreases data.len() - i,
{
    if i < 0 || i >= data.len() {
        Err(ParseError::Truncated { offset: start as usize })
    } else if data[i] == QUEUE_END {
        Ok(i)
    } else if action_of(data[i]) is Some {
        queue_end(data, start, i + 1)
    } else {
        Err(ParseError::UnrecognizedTag { tag: data[i], offset: i as usize })
    }
}

/// Why the instruction at `pos` cannot be decoded, if it can not.
pub open spec fn event_error(data: Seq<u8>, pos: int) -> Option<ParseError> {
    if pos < 0 || pos >= data.len() {
        Some(ParseError::Truncated { offset: pos as usize })
    } else if is_queue_tag(data[pos]) {
        if pos + 2 > data.len() {
            Some(ParseError::Truncated { offset: pos as usize })
        } else {
            match queue_end(data, pos, pos + 2) {
                Ok(_) => None,
                Err(e) => Some(e),
            }
        }
    } else {
        match fixed_len(data[pos]) {
            Some(n) => if pos + n > data.len() {
                Some(ParseError::Truncated { offset: pos as usize })
            } else {
                None
            },
            None => Some(ParseError::UnrecognizedTag { tag: data[pos], offset: pos as usize }),
        }
    }
}

/// Where the instruction at `pos` ends.
pub open spec fn event_next(data: Seq<u8>, pos: int) -> int {
    if is_queue_tag(data[pos]) {
        match queue_end(data, pos, pos + 2) {
            Ok(j) => j + 1,
            Err(_) => pos,
        }
    } else {
        match fixed_len(data[pos]) {
            Some(n) => pos + n,
            None => pos,
        }
    }
}

/// Whether `e` is the instruction encoded at `pos`.
pub open spec fn event_at(data: Seq<u8>, pos: int, e: Event) -> bool {
    let tag = data[pos];
    match e {
        Event::ActionQueue { queue_id, actions, wait, len } => {
            &&& is_queue_tag(tag)
            &&& queue_id == tag
            &&& wait == data[pos + 1] & 0x80u8
            &&& len == data[pos + 1] & 0x7fu8
            &&& queue_end(data, pos, pos + 2) is Ok
            &&& actions@.len() == queue_end(data, pos, pos + 2)->Ok_0 - (pos + 2)
            &&& forall|k: int|
                0 <= k < actions@.len() ==> action_of(#[trigger] data[pos + 2 + k]) == Some(
                    actions@[k],
                )
        },
        Event::BranchIfEventBit { bit, addr } => {
            &&& tag == BRANCH_IF_EVENT_BIT
            &&& bit == spec_u16(data, pos + 1)
            &&& addr == spec_u24(data, pos + 3)
        },
        Event::Call { addr } => tag == CALL && addr == spec_u24(data, pos + 1),
        Event::Dialog { msg, wait } => tag == DISP_TEXT_BOX_WAIT && msg == spec_u16(data, pos + 1)
            && wait,
        Event::JumpIfBattleSwitch { switch, addr } => {
            &&& tag == JUMP_IF_BATTLE_SWITCH
            &&& switch == data[pos + 1]
            &&& addr == spec_u24(data, pos + 2)
        },
        _ => zero_operand_event(tag) == Some(e),
    }
}

pub proof fn lemma_queue_end_bounds(data: Seq<u8>, start: int, i: int)
    requires
        0 <= i,
    ensures
        queue_end(data, start, i) is Ok ==> i <= queue_end(data, start, i)->Ok_0 < data.len(),
    decreases data.len() - i,
{
    if 0 <= i < data.len() && data[i] != QUEUE_END && action_of(data[i]) is Some {
        lemma_queue_end_bounds(data, start, i + 1);
    }
}

/// An instruction that decodes takes at least its tag byte.
pub proof fn lemma_event_advances(data: Seq<u8>, pos: int)
    requires
        event_error(data, pos) is None,
    ensures
        pos < event_next(data, pos) <= data.len(),
{
    if is_queue_tag(data[pos]) {
        lemma_queue_end_bounds(data, pos, pos + 2);
    }
}

/// Every instruction without operands decodes from its tag byte alone, to
/// exactly its own variant, and takes one byte.
pub proof fn lemma_zero_operand(data: Seq<u8>, pos: int)
    requires
        0 <= pos < data.len(),
        zero_operand_event(data[pos]) is Some,
    ensures
        event_error(data, pos) is None,
        event_next(data, pos) == pos + 1,
        forall|e: Event| event_at(data, pos, e) <==> e == zero_operand_event(data[pos])->Some_0,
{
}

fn fixed_len_of(tag: u8) -> (r: Option<usize>)
    ensures
        match r {
            Some(n) => fixed_len(tag) == Some(n as int),
            None => fixed_len(tag) is None,
        },
{
    if tag == DIALOG_WAIT || tag == INVOKE_BATTLE || tag == INVOKE_BATTLE_ON_CHEST_OPEN
        || tag == MAKE_CHAR0_LEAD || tag == NOP || tag == UNFADE_SCREEN {
        Some(1)
    } else if tag == BRANCH_IF_EVENT_BIT {
        Some(6)
    } else if tag == CALL {
        Some(4)
    } else if tag == DISP_TEXT_BOX_WAIT {
        Some(3)
    } else if tag == JUMP_IF_BATTLE_SWITCH {
        Some(5)
    } else {
        None
    }
}

fn parse_action_queue(data: &[u8], pos: usize) -> (r: Result<(Event, usize), ParseError>)
    requires
        pos < data@.len(),
        is_queue_tag(data@[pos as int]),
    ensures
        match r {
            Ok((e, next)) => event_error(data@, pos as int) is None && next == event_next(
                data@,
                pos as int,
            ) && event_at(data@, pos as int, e),
            Err(err) => event_error(data@, pos as int) == Some(err),
        },
{
    if data.len() - pos < 2 {
        return Err(ParseError::Truncated { offset: pos });
    }
    let tag = data[pos];
    let info = data[pos + 1];
    let mut actions: Vec<Action> = Vec::new();
    let mut i: usize = pos + 2;
    while i < data.len() && data[i] != QUEUE_END
        invariant
            pos + 2 <= i <= data@.len(),
            is_queue_tag(data@[pos as int]),
            tag == data@[pos as int],
            info == data@[pos + 1],
            queue_end(data@, pos as int, pos + 2) == queue_end(data@, pos as int, i as int),
            actions@.len() == i - (pos + 2),
            forall|k: int|
                0 <= k < actions@.len() ==> action_of(#[trigger] data@[pos + 2 + k]) == Some(
                    actions@[k],
                ),
        decreases data@.len() - i,
    {
        match parse_action(data, i) {
            Ok(a) => {
                actions.push(a);
                i = i + 1;
            },
            Err(e) => {
                return Err(e);
            },
        }
    }
    if i >= data.len() {
        return Err(ParseError::Truncated { offset: pos });
    }
    let e = Event::ActionQueue { queue_id: tag, actions, wait: info & 0x80u8, len: info & 0x7fu8 };
    Ok((e, i + 1))
}

/// Decodes the field instruction at `pos`; on success also returns where it ends.
pub fn parse_event(data: &[u8], pos: usize) -> (r: Result<(Event, usize), ParseError>)
    requires
        pos <= data@.len(),
    ensures
        match r {
            Ok((e, next)) => event_error(data@, pos as int) is None && next == event_next(
                data@,
                pos as int,
            ) && event_at(data@, pos as int, e),
            Err(err) => event_error(data@, pos as int) == Some(err),
        },
{
    if pos >= data.len() {
        return Err(ParseError::Truncated { offset: pos });
    }
    let tag = data[pos];
    if tag_in_range(tag, 0x31, 0x34) {
        return parse_action_queue(data, pos);
    }
    let n = match fixed_len_of(tag) {
        Some(n) => n,
        None => {
            return Err(ParseError::UnrecognizedTag { tag, offset: pos });
        },
    };
    if data.len() - pos < n {
        return Err(ParseError::Truncated { offset: pos });
    }
    let e = if tag == BRANCH_IF_EVENT_BIT {
        Event::BranchIfEventBit { bit: read_u16(data, pos + 1), addr: read_u24(data, pos + 3) }
    } else if tag == CALL {
        Event::Call { addr: read_u24(data, pos + 1) }
    } else if tag == DISP_TEXT_BOX_WAIT {
        Event::Dialog { msg: read_u16(data, pos + 1), wait: true }
    } else if tag == JUMP_IF_BATTLE_SWITCH {
        Event::JumpIfBattleSwitch { switch: data[pos + 1], addr: read_u24(data, pos + 2) }
    } else if tag == DIALOG_WAIT {
        Event::DialogWait
    } else if tag == INVOKE_BATTLE {
        Event::InvokeBattle
    } else if tag == INVOKE_BATTLE_ON_CHEST_OPEN {
        Event::InvokeBattleOnChestOpen
    } else if tag == MAKE_CHAR0_LEAD {
        Event::MakeChar0Lead
    } else if tag == NOP {
        Event::Nop
    } else {
        Event::UnfadeScreen
    };
    Ok((e, pos + n))
}

/// Why the field script starting at `pos` cannot be decoded, if it can not.
pub open spec fn script_error(data: Seq<u8>, pos: int) -> Option<ParseError>
    decreases data.len() - pos,
{
    if pos < 0 || pos >= data.len() {
        Some(ParseError::Truncated { offset: pos as usize })
    } else if data[pos] == RET {
        None
    } else if event_error(data, pos) is Some {
        event_error(data, pos)
    } else if event_next(data, pos) <= pos || event_next(data, pos) > data.len() {
        None
    } else {
        script_error(data, event_next(data, pos))
    }
}

/// Where the field script starting at `pos` ends: just past its `RET`.
pub open spec fn script_end(data: Seq<u8>, pos: int) -> int
    decreases data.len() - pos,
{
    if pos < 0 || pos >= data.len() {
        pos
    } else if data[pos] == RET {
        pos + 1
    } else if event_error(data, pos) is Some || event_next(data, pos) <= pos || event_next(
        data,
        pos,
    ) > data.len() {
        pos
    } else {
        script_end(data, event_next(data, pos))
    }
}

/// Whether `events` are the instructions of the field script starting at `pos`.
pub open spec fn script_at(data: Seq<u8>, pos: int, events: Seq<Event>) -> bool
    decreases events.len(),
{
    if events.len() == 0 {
        0 <= pos < data.len() && data[pos] == RET
    } else {
        &&& 0 <= pos < data.len()
        &&& data[pos] != RET
        &&& event_error(data, pos) is None
        &&& event_at(data, pos, events[0])
        &&& script_at(data, event_next(data, pos), events.drop_first())
    }
}

/// Whether `events` decode one after another from `pos` up to `end`, with no
/// `RET` among them.
pub open spec fn events_between(data: Seq<u8>, pos: int, events: Seq<Event>, end: int) -> bool
    decreases events.len(),
{
    if events.len() == 0 {
        pos == end
    } else {
        &&& 0 <= pos < data.len()
        &&& data[pos] != RET
        &&& event_error(data, pos) is None
        &&& event_at(data, pos, events[0])
        &&& events_between(data, event_next(data, pos), events.drop_first(), end)
    }
}

proof fn lemma_events_between_push(data: Seq<u8>, pos: int, events: Seq<Event>, i: int, e: Event)
    requires
        events_between(data, pos, events, i),
        0 <= i < data.len(),
        data[i] != RET,
        event_error(data, i) is None,
        event_at(data, i, e),
    ensures
        events_between(data, pos, events.push(e), event_next(data, i)),
    decreases events.len(),
{
    if events.len() == 0 {
        assert(events.push(e)[0] == e);
        assert(events.push(e).drop_first() =~= Seq::<Event>::empty());
        assert(events_between(data, event_next(data, i), Seq::<Event>::empty(), event_next(data, i)));
    } else {
        assert(events.push(e)[0] == events[0]);
        lemma_events_between_push(data, event_next(data, pos), events.drop_first(), i, e);
        assert(events.push(e).drop_first() =~= events.drop_first().push(e));
    }
}

proof fn lemma_events_between_script(data: Seq<u8>, pos: int, events: Seq<Event>, i: int)
    requires
        events_between(data, pos, events, i),
        0 <= i < data.len(),
        data[i] == RET,
    ensures
        script_at(data, pos, events),
    decreases events.len(),
{
    if events.len() > 0 {
        lemma_events_between_script(data, event_next(data, pos), events.drop_first(), i);
    }
}

/// A script that decodes ends after its first byte and within the data.
pub proof fn lemma_script_end_bounds(data: Seq<u8>, pos: int)
    requires
        script_error(data, pos) is None,
    ensures
        pos < script_end(data, pos) <= data.len(),
    decreases data.len() - pos,
{
    if 0 <= pos < data.len() && data[pos] != RET {
        lemma_event_advances(data, pos);
        lemma_script_end_bounds(data, event_next(data, pos));
    }
}

proof fn lemma_queue_end_frame(d1: Seq<u8>, d2: Seq<u8>, delta: int, start: int, i: int)
    requires
        agree_from(d1, d2, i, delta),
        d2.len() <= usize::MAX,
        0 <= start <= i <= d1.len(),
        d1.len() + delta == d2.len() || !(queue_end(d1, start, i) matches Err(
            ParseError::Truncated { .. },
        )),
    ensures
        queue_end(d2, start + delta, i + delta) == match queue_end(d1, start, i) {
            Ok(j) => Ok(j + delta),
            Err(e) => Err(shift_error(Some(e), delta)->Some_0),
        },
    decreases d1.len() - i,
{
    if i < d1.len() {
        assert(d2[i + delta] == d1[i]);
        if d1[i] != QUEUE_END && action_of(d1[i]) is Some {
            lemma_queue_end_frame(d1, d2, delta, start, i + 1);
        } else if d1[i] != QUEUE_END {
            assert(((i as usize) as int + delta) as usize == (i + delta) as usize);
        }
    } else {
        assert(((start as usize) as int + delta) as usize == (start + delta) as usize);
    }
}

/// The instruction at `pos` decodes the same wherever its bytes stand: moved
/// by `delta`, with more bytes after them or not (then only if it did not run
/// out of bytes).
pub proof fn lemma_event_frame(d1: Seq<u8>, d2: Seq<u8>, delta: int, pos: int)
    requires
        agree_from(d1, d2, pos, delta),
        pos <= d1.len(),
        d2.len() <= usize::MAX,
        d1.len() + delta == d2.len() || !is_truncated(event_error(d1, pos)),
    ensures
        event_error(d2, pos + delta) == shift_error(event_error(d1, pos), delta),
        event_error(d1, pos) is None ==> event_next(d2, pos + delta) == event_next(d1, pos)
            + delta,
        event_error(d1, pos) is None ==> forall|e: Event|
            event_at(d1, pos, e) == event_at(d2, pos + delta, e),
{
    assert(((pos as usize) as int + delta) as usize == (pos + delta) as usize);
    if pos < d1.len() {
        let tag = d1[pos];
        assert(d2[pos + delta] == tag);
        if is_queue_tag(tag) && pos + 2 <= d1.len() {
            assert(d2[pos + 1 + delta] == d1[pos + 1]);
            assert(d2[pos + delta + 1] == d1[pos + 1]);
            lemma_queue_end_frame(d1, d2, delta, pos, pos + 2);
            if event_error(d1, pos) is None {
                lemma_queue_end_bounds(d1, pos, pos + 2);
                let n = queue_end(d1, pos, pos + 2)->Ok_0 - (pos + 2);
                assert(queue_end(d2, pos + delta, pos + delta + 2)->Ok_0 - (pos + delta + 2) == n);
                assert forall|k: int| 0 <= k < n implies #[trigger] d1[pos + 2 + k] == d2[pos
                    + delta + 2 + k] by {
                    assert(d2[(pos + 2 + k) + delta] == d1[pos + 2 + k]);
                }
                assert forall|e: Event| event_at(d1, pos, e) == event_at(d2, pos + delta, e) by {
                    if let Event::ActionQueue { queue_id, actions, wait, len } = e {
                        if actions@.len() == n {
                            assert((forall|k: int|
                                0 <= k < n ==> action_of(#[trigger] d1[pos + 2 + k]) == Some(
                                    actions@[k],
                                )) <==> (forall|k: int|
                                0 <= k < n ==> action_of(#[trigger] d2[pos + delta + 2 + k])
                                    == Some(actions@[k]))) by {
                                assert forall|k: int| 0 <= k < n implies action_of(
                                    #[trigger] d1[pos + 2 + k],
                                ) == action_of(d2[pos + delta + 2 + k]) by {}
                                assert forall|k: int| 0 <= k < n implies action_of(
                                    #[trigger] d2[pos + delta + 2 + k],
                                ) == action_of(d1[pos + 2 + k]) by {}
                            }
                        }
                    }
                }
            }
        } else if event_error(d1, pos) is None {
            let n = fixed_len(tag)->Some_0;
            assert forall|k: int| 0 < k < n implies #[trigger] d1[pos + k] == d2[pos + delta + k] by {
                assert(d2[(pos + k) + delta] == d1[pos + k]);
            }
            if n >= 3 {
                assert(spec_u16(d1, pos + 1) == spec_u16(d2, pos + delta + 1));
            }
            if n >= 4 {
                assert(spec_u24(d1, pos + 1) == spec_u24(d2, pos + delta + 1));
            }
            if n >= 5 {
                assert(spec_u24(d1, pos + 2) == spec_u24(d2, pos + delta + 2));
            }
            if n >= 6 {
                assert(spec_u24(d1, pos + 3) == spec_u24(d2, pos + delta + 3));
            }
        }
    }
}

/// The script at `pos` decodes the same wherever its bytes stand: moved by
/// `delta`, with more bytes after them or not (then only if it did not run out
/// of bytes).
pub proof fn lemma_script_frame(d1: Seq<u8>, d2: Seq<u8>, delta: int, pos: int)
    requires
        agree_from(d1, d2, pos, delta),
        pos <= d1.len(),
        d2.len() <= usize::MAX,
        d1.len() + delta == d2.len() || !is_truncated(script_error(d1, pos)),
    ensures
        script_error(d2, pos + delta) == shift_error(script_error(d1, pos), delta),
        script_error(d1, pos) is None ==> script_end(d2, pos + delta) == script_end(d1, pos)
            + delta,
        script_error(d1, pos) is None ==> forall|events: Seq<Event>|
            script_at(d1, pos, events) == script_at(d2, pos + delta, events),
    decreases d1.len() - pos,
{
    assert(((pos as usize) as int + delta) as usize == (pos + delta) as usize);
    if pos < d1.len() {
        assert(d2[pos + delta] == d1[pos]);
        if d1[pos] != RET {
            lemma_event_frame(d1, d2, delta, pos);
            if event_error(d1, pos) is None {
                lemma_event_advances(d1, pos);
                let next = event_next(d1, pos);
                lemma_script_frame(d1, d2, delta, next);
                if script_error(d1, pos) is None {
                    assert forall|events: Seq<Event>|
                        script_at(d1, pos, events) == script_at(d2, pos + delta, events) by {
                        if events.len() > 0 {
                            assert(script_at(d1, next, events.drop_first()) == script_at(
                                d2,
                                next + delta,
                                events.drop_first(),
                            ));
                        }
                    }
                }
            }
        }
    }
}

/// Decodes the field script starting at `pos`, up to and including its `RET`;
/// on success also returns where it ends.
pub fn parse_script(data: &[u8], pos: usize) -> (r: Result<(Script, usize), ParseError>)
    requires
        pos <= data@.len(),
    ensures
        match r {
            Ok((s, end)) => script_error(data@, pos as int) is None && end == script_end(
                data@,
                pos as int,
            ) && script_at(data@, pos as int, s.events@),
            Err(err) => script_error(data@, pos as int) == Some(err),
        },
{
    let mut events: Vec<Event> = Vec::new();
    let mut i: usize = pos;
    loop
        invariant
            pos <= i <= data@.len(),
            script_error(data@, pos as int) == script_error(data@, i as int),
            script_end(data@, pos as int) == script_end(data@, i as int),
            events_between(data@, pos as int, events@, i as int),
        decreases data@.len() - i,
    {
        if i >= data.len() {
            return Err(ParseError::Truncated { offset: i });
        }
        if data[i] == RET {
            proof {
                lemma_events_between_script(data@, pos as int, events@, i as int);
            }
            return Ok((Script { events }, i + 1));
        }
        match parse_event(data, i) {
            Ok((e, next)) => {
                proof {
                    lemma_event_advances(data@, i as int);
                    lemma_events_between_push(data@, pos as int, events@, i as int, e);
                }
                events.push(e);
                i = next;
            },
            Err(err) => {
                return Err(err);
            },
        }
    }
}

} // verus!
