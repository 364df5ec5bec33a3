//! The stack.

use crate::events::GameEvent;
use crate::state::{Game, GameState, StackEntry};
use vstd::prelude::*;

verus! {

/// Puts an entry on top of the stack.
pub fn push_to_stack(state: &mut GameState, entry: StackEntry, events: &mut Vec<GameEvent>)
    ensures
        final(state)@ == (Game { stack: old(state)@.stack.push(entry), ..old(state)@ }),
        final(events)@ == old(events)@.push(GameEvent::StackPushed { object_id: entry.id }),
{
    events.push(GameEvent::StackPushed { object_id: entry.id });
    state.stack.push(entry);
}

} // verus!
