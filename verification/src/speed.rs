//! Speed, and the trigger that raises it (CR 702.179).

use crate::ids::{ObjectId, PlayerId};
use crate::object::Player;
use crate::state::{Game, GameState};
use vstd::prelude::*;

verus! {

pub const MAX_SPEED: u8 = 4;

/// A player's speed, or 0 for a player who has none.
pub open spec fn speed_of(g: Game, player: PlayerId) -> u8 {
    match g.player(player) {
        None => 0,
        Some(p) => match p.speed {
            None => 0,
            Some(s) => s,
        },
    }
}

pub fn effective_speed(state: &GameState, player: PlayerId) -> (r: u8)
    ensures
        r == speed_of(state@, player),
{
    match state.get_player(player) {
        None => 0,
        Some(p) => match p.speed {
            None => 0,
            Some(s) => s,
        },
    }
}

pub fn has_max_speed(state: &GameState, player: PlayerId) -> (r: bool)
    ensures
        r == (speed_of(state@, player) >= MAX_SPEED),
{
    effective_speed(state, player) >= MAX_SPEED
}

/// Whether the player's speed trigger has yet to fire this turn.
pub open spec fn speed_trigger_free(g: Game, player: PlayerId) -> bool {
    g.player(player) matches Some(p) && !p.speed_trigger_used
}

pub fn speed_trigger_available(state: &GameState, player: PlayerId) -> (r: bool)
    ensures
        r == speed_trigger_free(state@, player),
{
    match state.get_player(player) {
        None => false,
        Some(p) => !p.speed_trigger_used,
    }
}

/// The game once the player's speed trigger has fired this turn.
pub open spec fn speed_trigger_spent(g: Game, player: PlayerId) -> Game {
    match g.player(player) {
        None => g,
        Some(p) => g.set_player(player, Player { speed_trigger_used: true, ..p }),
    }
}

pub fn mark_speed_trigger_used(state: &mut GameState, player: PlayerId)
    ensures
        final(state)@ == speed_trigger_spent(old(state)@, player),
{
    let seat: usize = state.find_seat(player);
    if seat < state.players.len() {
        state.players[seat].speed_trigger_used = true;
    }
}

/// The speed trigger has no source object; this identifier stands for that.
pub fn speed_key_source() -> (r: ObjectId)
    ensures
        r == ObjectId(0),
{
    ObjectId(0)
}

} // verus!
