//! How a game begins.

use crate::ids::{ObjectId, Phase, PlayerId};
use crate::list::lemma_items_of;
use crate::state::{fresh_game, next_number, FormatConfig, WaitingFor};
use vstd::prelude::*;

verus! {

/// A new game has so many players, numbered from zero in the order of their seats, each with the
/// starting life total and nothing else; nobody has left, and the first player has priority in the
/// untap step. There are no objects, nothing is on the stack, and nobody holds an office.
pub proof fn law_beginning(format: FormatConfig, player_count: u8, seed: u64, i: int)
    ensures
        ({
            let g = fresh_game(format, player_count, seed);
            &&& g.format_config == format && g.rng_state == seed
            &&& g.players.len() == player_count
            &&& 0 <= i < player_count ==> {
                let p = g.players[i];
                &&& p.id.0 == i && p.life == format.starting_life && !p.is_eliminated
                &&& p.poison_counters == 0 && p.rad_counters == 0 && p.speed is None
                &&& p.hand@.len() == 0 && p.library@.len() == 0 && p.graveyard@.len() == 0
                &&& p.mana_pool@.len() == 0 && !p.speed_trigger_used && !p.descended_this_turn
                &&& p.life_gained_this_turn == 0 && p.life_lost_this_turn == 0
                &&& p.life_lost_last_turn == 0 && p.cards_drawn_this_turn == 0
                &&& p.cards_discarded_this_turn == 0
            }
            &&& g.active_player == PlayerId(0) && g.priority_player == PlayerId(0)
            &&& g.waiting_for == (WaitingFor::Priority { player: PlayerId(0) })
            &&& g.turn_number == 0 && g.phase == Phase::Untap
            &&& forall|id: ObjectId| !#[trigger] g.objects.contains_key(id)
            &&& g.battlefield.len() == 0 && g.exile.len() == 0 && g.command_zone.len() == 0
            &&& g.stack.len() == 0 && g.eliminated_players.len() == 0
            &&& g.monarch is None && g.initiative is None && g.combat is None
            &&& g.pending_trigger is None && g.delayed_triggers.len() == 0
            &&& g.next_object_id > 0 && !g.layers_dirty
            &&& forall|p: PlayerId|
                !#[trigger] g.ring_level.contains_key(p) && !g.ring_bearer.contains_key(p)
                    && !g.dungeon_progress.contains_key(p)
            &&& g.commander_damage.len() == 0 && g.damage_dealt_this_turn.len() == 0
        }),
{
    lemma_items_of(Seq::<ObjectId>::empty());
    lemma_items_of(Seq::<crate::object::ManaUnit>::empty());
}

/// Numbers are given in order.
pub proof fn law_numbers(n: u64)
    ensures
        n < u64::MAX ==> next_number(n) == n + 1,
        next_number(n) != n,
{
}

} // verus!
