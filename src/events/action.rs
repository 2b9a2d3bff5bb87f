use vstd::prelude::*;

use crate::events::ParseError;

verus! {

/// Tag byte of `Action::CenterOnScreen`.
pub const CENTER_ON_SCREEN: u8 = 0xd7;

/// An instruction of a party member's action queue.
#[derive(Clone, Copy, Debug, PartialEq, Eq, Structural)]
pub enum Action {
    CenterOnScreen,
}

/// The action that a tag byte names, if any.
pub open spec fn action_of(tag: u8) -> Option<Action> {
    if tag == CENTER_ON_SCREEN {
        Some(Action::CenterOnScreen)
    } else {
        None
    }
}

/// Decodes the single-byte action at `pos`.
pub fn parse_action(data: &[u8], pos: usize) -> (r: Result<Action, ParseError>)
    requires
        pos <= data@.len(),
    ensures
        match r {
            Ok(a) => pos < data@.len() && action_of(data@[pos as int]) == Some(a),
            Err(e) => if pos < data@.len() {
                action_of(data@[pos as int]) is None
                    && e == (ParseError::UnrecognizedTag { tag: data@[pos as int], offset: pos })
            } else {
                e == (ParseError::Truncated { offset: pos })
            },
        },
{
    if pos >= data.len() {
        return Err(ParseError::Truncated { offset: pos });
    }
    let tag = data[pos];
    if tag == CENTER_ON_SCREEN {
        Ok(Action::CenterOnScreen)
    } else {
        Err(ParseError::UnrecognizedTag { tag, offset: pos })
    }
}

} // verus!
