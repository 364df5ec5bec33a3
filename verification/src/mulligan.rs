//! The end of the mulligans (CR 103.5): cards go to the bottom, then the game begins.

use crate::id_map::{at, IdMap};
use crate::ids::PlayerId;
use crate::list::{list_of, List};
use crate::state::{Game, GameState, MulliganEntry, WaitingFor};
use vstd::prelude::*;

verus! {

/// Those of the first `n` players who have cards to put on the bottom, with how many.
pub open spec fn bottom_entries(g: Game, n: nat) -> Seq<MulliganEntry>
    decreases n,
{
    if n == 0 {
        seq![]
    } else {
        let before = bottom_entries(g, (n - 1) as nat);
        let player = g.players[n - 1].id;
        match at(g.final_mulligan_counts, player) {
            None => before,
            Some(count) => if count > 0 {
                before.push(MulliganEntry { player, count })
            } else {
                before
            },
        }
    }
}

/// The game as the mulligans are over: the active player has priority.
pub open spec fn mulligans_finished(g: Game) -> Game {
    Game {
        final_mulligan_counts: Map::empty(),
        waiting_for: WaitingFor::Priority { player: g.active_player },
        ..g
    }
}

/// The game as the players who took mulligans put cards on the bottom, or, where none did, as the
/// mulligans are over.
pub open spec fn bottom_phase_entered(g: Game) -> Game {
    let entries = bottom_entries(g, g.players.len());
    if entries.len() == 0 {
        mulligans_finished(g)
    } else {
        Game { waiting_for: WaitingFor::MulliganBottomCards { pending: list_of(entries) }, ..g }
    }
}

pub fn finish_mulligans(state: &mut GameState)
    ensures
        final(state)@ == mulligans_finished(old(state)@),
{
    state.final_mulligan_counts = IdMap::new();
    state.waiting_for = WaitingFor::Priority { player: state.active_player };
}

pub fn enter_bottom_phase(state: &mut GameState)
    ensures
        final(state)@ == bottom_phase_entered(old(state)@),
{
    let mut entries: Vec<MulliganEntry> = Vec::new();
    let mut i: usize = 0;
    while i < state.players.len()
        invariant
            i <= state.players@.len(),
            *state == *old(state),
            entries@ == bottom_entries(state@, i as nat),
        decreases state.players@.len() - i,
    {
        let player: PlayerId = state.players[i].id;
        if let Some(count) = state.final_mulligan_counts.get(&player) {
            if *count > 0 {
                entries.push(MulliganEntry { player, count: *count });
            }
        }
        i = i + 1;
    }
    if entries.len() == 0 {
        finish_mulligans(state);
    } else {
        state.waiting_for = WaitingFor::MulliganBottomCards { pending: List::from_vec(entries) };
    }
}

} // verus!
