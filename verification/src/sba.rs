//! State-based actions (CR 704): players who have lost, and permanents that cannot stay.

use crate::elimination::laws::{
    law_leaving, lemma_all_moved, lemma_combat_stays, lemma_same_seats, living_count, same_players,
};
use crate::elimination::{
    all_moved, eliminate_player, has_left, move_all, player_gone,
};
use crate::events::GameEvent;
use crate::ids::{CoreType, KeywordKind, ObjectId, PlayerId, Zone};
use crate::layers::{evaluate_layers, law_layers_keep_table};
use crate::object::{GameObject, Player};
use crate::state::{same_seats, CommanderDamageEntry, Game, GameState, Play};
use crate::triggers::up_to_date;
use crate::zones::{law_departure, lemma_ids_without, lemma_moved};
use vstd::prelude::*;

verus! {

pub const LETHAL_POISON: u32 = 10;

pub const LETHAL_COMMANDER_DAMAGE: u32 = 21;

/// Whether one commander has dealt a player enough combat damage to lose (CR 704.6c).
pub open spec fn beaten_by_commander(damage: Seq<CommanderDamageEntry>, player: PlayerId) -> bool {
    exists|i: int|
        0 <= i < damage.len() && (#[trigger] damage[i]).player == player && damage[i].damage
            >= LETHAL_COMMANDER_DAMAGE
}

/// Whether a player in the game has lost it: no life left, too much poison, or too much damage
/// from one commander (CR 704.5a, CR 704.5c).
pub open spec fn has_lost(g: Game, p: Player) -> bool {
    !p.is_eliminated && (p.life <= 0 || p.poison_counters >= LETHAL_POISON || beaten_by_commander(
        g.commander_damage,
        p.id,
    ))
}

fn check_has_lost(state: &GameState, p: &Player) -> (r: bool)
    ensures
        r == has_lost(state@, *p),
{
    if p.is_eliminated {
        return false;
    }
    if p.life <= 0 || p.poison_counters >= LETHAL_POISON {
        return true;
    }
    let mut i: usize = 0;
    while i < state.commander_damage.len()
        invariant
            i <= state.commander_damage@.len(),
            !p.is_eliminated,
            forall|j: int|
                0 <= j < i ==> !((#[trigger] state@.commander_damage[j]).player == p.id
                    && state@.commander_damage[j].damage >= LETHAL_COMMANDER_DAMAGE),
        decreases state.commander_damage@.len() - i,
    {
        if state.commander_damage[i].player == p.id && state.commander_damage[i].damage
            >= LETHAL_COMMANDER_DAMAGE {
            assert(state@.commander_damage[i as int].player == p.id);
            return true;
        }
        i = i + 1;
    }
    false
}

/// Those of the first `n` players who have lost.
pub open spec fn losers(g: Game, n: nat) -> Seq<PlayerId>
    decreases n,
{
    if n == 0 {
        seq![]
    } else {
        let before = losers(g, (n - 1) as nat);
        if has_lost(g, g.players[n - 1]) {
            before.push(g.players[n - 1].id)
        } else {
            before
        }
    }
}

fn find_losers(state: &GameState) -> (r: Vec<PlayerId>)
    ensures
        r@ == losers(state@, state@.players.len()),
{
    let mut out: Vec<PlayerId> = Vec::new();
    let mut i: usize = 0;
    while i < state.players.len()
        invariant
            i <= state.players@.len(),
            out@ == losers(state@, i as nat),
        decreases state.players@.len() - i,
    {
        if check_has_lost(state, &state.players[i]) {
            out.push(state.players[i].id);
        }
        i = i + 1;
    }
    out
}

/// The first `n` of some players out of the game, one after the other.
pub open spec fn all_gone(p: Play, players: Seq<PlayerId>, n: nat) -> Play
    decreases n,
{
    if n == 0 {
        p
    } else {
        player_gone(all_gone(p, players, (n - 1) as nat), players[n - 1])
    }
}

fn eliminate_all(state: &mut GameState, players: &Vec<PlayerId>, events: &mut Vec<GameEvent>)
    ensures
        (Play { game: final(state)@, events: final(events)@ }) == all_gone(
            Play { game: old(state)@, events: old(events)@ },
            players@,
            players@.len(),
        ),
{
    let ghost p = Play { game: state@, events: events@ };
    let mut i: usize = 0;
    while i < players.len()
        invariant
            i <= players@.len(),
            p == (Play { game: old(state)@, events: old(events)@ }),
            (Play { game: state@, events: events@ }) == all_gone(p, players@, i as nat),
        decreases players@.len() - i,
    {
        eliminate_player(state, players[i], events);
        i = i + 1;
    }
}

/// Whether a permanent cannot stay: a creature without toughness, with lethal damage or with
/// damage from a source with deathtouch (unless it is indestructible), or a planeswalker without
/// loyalty (CR 704.5f to CR 704.5i).
pub open spec fn is_doomed(o: GameObject) -> bool {
    &&& o.zone == Zone::Battlefield
    &&& !o.phased_out
    &&& {
        ||| o.is_type(CoreType::Creature) && match o.toughness {
            None => false,
            Some(t) => t <= 0 || (!o.has(KeywordKind::Indestructible) && (o.damage_marked >= t
                || o.dealt_deathtouch_damage)),
        }
        ||| o.is_type(CoreType::Planeswalker) && o.loyalty == Some(0u32)
    }
}

fn check_doomed(o: &GameObject) -> (r: bool)
    ensures
        r == is_doomed(*o),
{
    o.zone == Zone::Battlefield && !o.phased_out && ((o.has_core_type(CoreType::Creature)
        && match o.toughness {
        None => false,
        Some(t) => t <= 0 || (!o.has_keyword(KeywordKind::Indestructible) && (o.damage_marked
            >= t as u32 || o.dealt_deathtouch_damage)),
    }) || (o.has_core_type(CoreType::Planeswalker) && match o.loyalty {
        None => false,
        Some(l) => l == 0,
    }))
}

/// Those of the first `n` permanents that cannot stay.
pub open spec fn doomed(g: Game, n: nat) -> Seq<ObjectId>
    decreases n,
{
    if n == 0 {
        seq![]
    } else {
        let before = doomed(g, (n - 1) as nat);
        let id = g.battlefield[n - 1];
        if g.object(id) matches Some(o) && is_doomed(o) {
            before.push(id)
        } else {
            before
        }
    }
}

fn find_doomed(state: &GameState) -> (r: Vec<ObjectId>)
    ensures
        r@ == doomed(state@, state@.battlefield.len()),
{
    let mut out: Vec<ObjectId> = Vec::new();
    let mut i: usize = 0;
    while i < state.battlefield.len()
        invariant
            i <= state.battlefield@.len(),
            out@ == doomed(state@, i as nat),
        decreases state.battlefield@.len() - i,
    {
        let id = state.battlefield[i];
        let goes: bool = match state.objects.get(&id) {
            None => false,
            Some(o) => check_doomed(o),
        };
        if goes {
            out.push(id);
        }
        i = i + 1;
    }
    out
}

/// The game after the state-based actions: with continuous effects up to date, players who have
/// lost leave, and the permanents that cannot stay go to their owners' graveyards together.
#[verifier::opaque]
pub open spec fn actions_performed(p: Play) -> Play {
    let current = Play { game: up_to_date(p.game), ..p };
    let lost = losers(current.game, current.game.players.len());
    let left = all_gone(current, lost, lost.len());
    let going = doomed(left.game, left.game.battlefield.len());
    all_moved(left, going, Zone::Graveyard, going.len())
}

/// CR 704.3: Performs all applicable state-based actions, once.
pub fn check_state_based_actions(state: &mut GameState, events: &mut Vec<GameEvent>)
    ensures
        (Play { game: final(state)@, events: final(events)@ }) == actions_performed(
            Play { game: old(state)@, events: old(events)@ },
        ),
{
    proof {
        reveal(actions_performed);
    }
    if state.layers_dirty {
        evaluate_layers(state);
    }
    let lost = find_losers(state);
    eliminate_all(state, &lost, events);
    let going = find_doomed(state);
    move_all(state, &going, Zone::Graveyard, events);
}

proof fn lemma_losers(g: Game, n: nat)
    requires
        n <= g.players.len(),
    ensures
        forall|i: int| 0 <= i < losers(g, n).len() ==> (#[trigger] g.player(losers(g, n)[i])) is Some,
    decreases n,
{
    if n > 0 {
        lemma_losers(g, (n - 1) as nat);
        let before = losers(g, (n - 1) as nat);
        assert forall|i: int| 0 <= i < losers(g, n).len() implies (#[trigger] g.player(
            losers(g, n)[i],
        )) is Some by {
            if i < before.len() {
                assert(g.player(before[i]) is Some);
            } else {
                crate::state::lemma_first_seat(g.players, g.players[n - 1].id, 0);
            }
        }
    }
}

/// Either nobody leaves, or there are fewer players than before.
proof fn lemma_all_gone(p: Play, players: Seq<PlayerId>, n: nat)
    requires
        n <= players.len(),
        forall|i: int| 0 <= i < players.len() ==> (#[trigger] p.game.player(players[i])) is Some,
    ensures
        all_gone(p, players, n) == p || living_count(all_gone(p, players, n).game) < living_count(
            p.game,
        ),
        all_gone(p, players, n).game.battlefield.len() <= p.game.battlefield.len(),
        same_players(all_gone(p, players, n).game, p.game),
    decreases n,
{
    if n > 0 {
        lemma_all_gone(p, players, (n - 1) as nat);
        let before = all_gone(p, players, (n - 1) as nat);
        let player = players[n - 1];
        assert(p.game.player(player) is Some);
        assert(before.game.player(player) is Some);
        if !has_left(before.game, player) {
            law_leaving(before, player);
        }
    }
}

proof fn lemma_doomed(g: Game, n: nat)
    requires
        n <= g.battlefield.len(),
    ensures
        forall|i: int|
            0 <= i < doomed(g, n).len() ==> g.battlefield.contains(#[trigger] doomed(g, n)[i])
                && g.on_battlefield(doomed(g, n)[i]),
    decreases n,
{
    if n > 0 {
        lemma_doomed(g, (n - 1) as nat);
        let before = doomed(g, (n - 1) as nat);
        assert forall|i: int| 0 <= i < doomed(g, n).len() implies g.battlefield.contains(
            #[trigger] doomed(g, n)[i],
        ) && g.on_battlefield(doomed(g, n)[i]) by {
            if i < before.len() {
                assert(g.battlefield.contains(before[i]));
            } else {
                assert(g.battlefield[n - 1] == doomed(g, n)[i]);
            }
        }
    }
}

proof fn lemma_some_moved(p: Play, ids: Seq<ObjectId>, n: nat)
    requires
        1 <= n,
        p.game.on_battlefield(ids[0]),
        p.game.battlefield.contains(ids[0]),
    ensures
        same_seats(p.game, all_moved(p, ids, Zone::Graveyard, n).game),
        all_moved(p, ids, Zone::Graveyard, n).game.battlefield.len() < p.game.battlefield.len(),
    decreases n,
{
    lemma_all_moved(p, ids, Zone::Graveyard, n);
    let before = all_moved(p, ids, Zone::Graveyard, (n - 1) as nat);
    if n == 1 {
        law_departure(p.game, ids[0], Zone::Graveyard);
    } else {
        lemma_some_moved(p, ids, (n - 1) as nat);
        lemma_moved(before.game, ids[n - 1], Zone::Graveyard);
        lemma_ids_without(before.game.battlefield, ids[n - 1], before.game.battlefield.len());
    }
}

/// Each time that state-based actions do anything, there are fewer players or, with as many
/// players, fewer permanents. So they come to an end.
pub proof fn law_actions_end(p: Play)
    ensures
        ({
            let r = actions_performed(p);
            ||| r.events == p.events
            ||| living_count(r.game) < living_count(p.game)
            ||| living_count(r.game) == living_count(p.game) && r.game.battlefield.len()
                < p.game.battlefield.len()
        }),
{
    reveal(actions_performed);
    let current = Play { game: up_to_date(p.game), ..p };
    law_layers_keep_table(p.game);
    lemma_same_seats(p.game, current.game);
    let lost = losers(current.game, current.game.players.len());
    lemma_losers(current.game, current.game.players.len());
    let left = all_gone(current, lost, lost.len());
    lemma_all_gone(current, lost, lost.len());
    let going = doomed(left.game, left.game.battlefield.len());
    lemma_doomed(left.game, left.game.battlefield.len());
    lemma_all_moved(left, going, Zone::Graveyard, going.len());
    let r = actions_performed(p);
    lemma_same_seats(left.game, r.game);
    if going.len() > 0 {
        assert(left.game.battlefield.contains(going[0]));
        lemma_some_moved(left, going, going.len());
    }
}

proof fn lemma_all_gone_combat(p: Play, players: Seq<PlayerId>, n: nat)
    ensures
        all_gone(p, players, n).game.combat == p.game.combat,
    decreases n,
{
    if n > 0 {
        lemma_all_gone_combat(p, players, (n - 1) as nat);
        lemma_combat_stays(all_gone(p, players, (n - 1) as nat), players[n - 1]);
    }
}

/// State-based actions leave the record of the combat as it is.
pub proof fn lemma_actions_keep_combat(p: Play)
    ensures
        actions_performed(p).game.combat == p.game.combat,
{
    reveal(actions_performed);
    let current = Play { game: up_to_date(p.game), ..p };
    law_layers_keep_table(p.game);
    let lost = losers(current.game, current.game.players.len());
    let left = all_gone(current, lost, lost.len());
    lemma_all_gone_combat(current, lost, lost.len());
    let going = doomed(left.game, left.game.battlefield.len());
    lemma_all_moved(left, going, Zone::Graveyard, going.len());
}

} // verus!
