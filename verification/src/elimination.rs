//! Players who leave the game (CR 800.4), and the end of the game (CR 104).

use crate::ability::{Effect, ResolvedAbility};
use crate::dungeon::{dungeon_sentinel_id, sentinel};
use crate::events::GameEvent;
use crate::ids::{holds_player, DungeonId, ObjectId, PlayerId, Zone};
use crate::list::{list_of, List};
use crate::mulligan::{
    bottom_phase_entered, enter_bottom_phase, finish_mulligans, mulligans_finished,
};
use crate::object::Player;
use crate::players::{alive, is_alive, next_player, player_after, teammates, teammates_of};
use crate::state::{Game, GameState, MulliganEntry, Play, StackEntry, WaitingFor};
use crate::text::Text;
use crate::triggers::placing::{push_pending_trigger_to_stack, trigger_pushed};
use crate::triggers::PendingTrigger;
use crate::zones::{move_events, move_to_zone, moved};
use vstd::prelude::*;

pub mod departure_laws;
pub mod laws;

verus! {

/// Whether a seat of the player holds someone who has left the game.
pub open spec fn has_left(g: Game, player: PlayerId) -> bool {
    exists|i: int|
        0 <= i < g.players.len() && (#[trigger] g.players[i]).id == player
            && g.players[i].is_eliminated
}

fn check_has_left(state: &GameState, player: PlayerId) -> (r: bool)
    ensures
        r == has_left(state@, player),
{
    let mut i: usize = 0;
    while i < state.players.len()
        invariant
            i <= state.players@.len(),
            forall|j: int|
                0 <= j < i ==> !((#[trigger] state@.players[j]).id == player
                    && state@.players[j].is_eliminated),
        decreases state.players@.len() - i,
    {
        if state.players[i].id == player && state.players[i].is_eliminated {
            assert(state@.players[i as int].id == player);
            return true;
        }
        i = i + 1;
    }
    false
}

/// The game with a player marked as gone.
pub open spec fn marked_gone(g: Game, player: PlayerId) -> Game {
    let seated = match g.player(player) {
        None => g,
        Some(p) => g.set_player(player, Player { is_eliminated: true, ..p }),
    };
    Game {
        eliminated_players: if g.eliminated_players.contains(player) {
            g.eliminated_players
        } else {
            g.eliminated_players.push(player)
        },
        ..seated
    }
}

fn mark_gone(state: &mut GameState, player: PlayerId)
    ensures
        final(state)@ == marked_gone(old(state)@, player),
{
    let seat: usize = state.find_seat(player);
    if seat < state.players.len() {
        state.players[seat].is_eliminated = true;
    }
    if !holds_player(&state.eliminated_players, player) {
        state.eliminated_players.push(player);
    }
}

/// The lowest `n` entries of the stack that the player does not control.
pub open spec fn entries_of_others(stack: Seq<StackEntry>, player: PlayerId, n: nat) -> Seq<
    StackEntry,
>
    decreases n,
{
    if n == 0 {
        seq![]
    } else {
        let before = entries_of_others(stack, player, (n - 1) as nat);
        if stack[n - 1].controller == player {
            before
        } else {
            before.push(stack[n - 1])
        }
    }
}

fn drop_entries_of(stack: &mut Vec<StackEntry>, player: PlayerId)
    ensures
        final(stack)@ == entries_of_others(old(stack)@, player, old(stack)@.len()),
{
    let ghost all = stack@;
    let mut kept: Vec<StackEntry> = Vec::new();
    let total: usize = stack.len();
    let mut i: usize = 0;
    while i < total
        invariant
            i <= total,
            total == all.len(),
            stack@ == all.skip(i as int),
            kept@ == entries_of_others(all, player, i as nat),
        decreases total - i,
    {
        let entry = stack.remove(0);
        assert(entry == all[i as int]);
        assert(stack@ =~= all.skip(i + 1));
        if entry.controller != player {
            kept.push(entry);
        }
        i = i + 1;
    }
    *stack = kept;
}

pub open spec fn is_owned(g: Game, id: ObjectId, player: PlayerId) -> bool {
    g.object(id) matches Some(o) && o.owner == player
}

/// Those of the first `n` permanents that the player owns.
pub open spec fn owned_permanents(g: Game, player: PlayerId, n: nat) -> Seq<ObjectId>
    decreases n,
{
    if n == 0 {
        seq![]
    } else {
        let before = owned_permanents(g, player, (n - 1) as nat);
        if is_owned(g, g.battlefield[n - 1], player) {
            before.push(g.battlefield[n - 1])
        } else {
            before
        }
    }
}

fn find_owned_permanents(state: &GameState, player: PlayerId) -> (r: Vec<ObjectId>)
    ensures
        r@ == owned_permanents(state@, player, state@.battlefield.len()),
{
    let mut out: Vec<ObjectId> = Vec::new();
    let mut i: usize = 0;
    while i < state.battlefield.len()
        invariant
            i <= state.battlefield@.len(),
            out@ == owned_permanents(state@, player, i as nat),
        decreases state.battlefield@.len() - i,
    {
        let owned: bool = match state.objects.get(&state.battlefield[i]) {
            None => false,
            Some(o) => o.owner == player,
        };
        if owned {
            out.push(state.battlefield[i]);
        }
        i = i + 1;
    }
    out
}

/// The first `n` of some objects moved to a zone, one after the other.
pub open spec fn all_moved(p: Play, ids: Seq<ObjectId>, to: Zone, n: nat) -> Play
    decreases n,
{
    if n == 0 {
        p
    } else {
        let before = all_moved(p, ids, to, (n - 1) as nat);
        Play {
            game: moved(before.game, ids[n - 1], to),
            events: before.events + move_events(before.game, ids[n - 1], to),
        }
    }
}

pub fn move_all(state: &mut GameState, ids: &Vec<ObjectId>, to: Zone, events: &mut Vec<GameEvent>)
    ensures
        (Play { game: final(state)@, events: final(events)@ }) == all_moved(
            Play { game: old(state)@, events: old(events)@ },
            ids@,
            to,
            ids@.len(),
        ),
{
    let ghost p = Play { game: state@, events: events@ };
    let mut i: usize = 0;
    while i < ids.len()
        invariant
            i <= ids@.len(),
            p == (Play { game: old(state)@, events: old(events)@ }),
            state@ == all_moved(p, ids@, to, i as nat).game,
            events@ == all_moved(p, ids@, to, i as nat).events,
        decreases ids@.len() - i,
    {
        move_to_zone(state, ids[i], to, events);
        i = i + 1;
    }
}

/// Whether anyone but the player is still in the game.
pub open spec fn others_remain(g: Game, player: PlayerId) -> bool {
    exists|i: int|
        0 <= i < g.players.len() && !(#[trigger] g.players[i]).is_eliminated && g.players[i].id
            != player
}

fn check_others_remain(state: &GameState, player: PlayerId) -> (r: bool)
    ensures
        r == others_remain(state@, player),
{
    let mut i: usize = 0;
    while i < state.players.len()
        invariant
            i <= state.players@.len(),
            forall|j: int|
                0 <= j < i ==> !(!(#[trigger] state@.players[j]).is_eliminated
                    && state@.players[j].id != player),
        decreases state.players@.len() - i,
    {
        if !state.players[i].is_eliminated && state.players[i].id != player {
            assert(!state@.players[i as int].is_eliminated);
            return true;
        }
        i = i + 1;
    }
    false
}

/// Who takes over what a leaving player held (CR 725.4): the active player, or, where that one is
/// leaving too, the next in turn order.
pub open spec fn heir(g: Game, player: PlayerId) -> PlayerId {
    if alive(g, g.active_player) && g.active_player != player {
        g.active_player
    } else {
        player_after(g, player)
    }
}

fn find_heir(state: &GameState, player: PlayerId) -> (r: PlayerId)
    ensures
        r == heir(state@, player),
{
    if is_alive(state, state.active_player) && state.active_player != player {
        state.active_player
    } else {
        next_player(state, player)
    }
}

/// The crown passed on, where the leaving player was the monarch.
pub open spec fn monarch_passed(p: Play, player: PlayerId) -> Play {
    if p.game.monarch != Some(player) {
        p
    } else if !others_remain(p.game, player) {
        Play { game: Game { monarch: None, ..p.game }, ..p }
    } else {
        let next = heir(p.game, player);
        Play {
            game: Game { monarch: Some(next), ..p.game },
            events: p.events.push(GameEvent::MonarchChanged { player_id: next }),
        }
    }
}

fn pass_monarch(state: &mut GameState, player: PlayerId, events: &mut Vec<GameEvent>)
    ensures
        (Play { game: final(state)@, events: final(events)@ }) == monarch_passed(
            Play { game: old(state)@, events: old(events)@ },
            player,
        ),
{
    if state.monarch == Some(player) {
        if !check_others_remain(state, player) {
            state.monarch = None;
        } else {
            let next = find_heir(state, player);
            state.monarch = Some(next);
            events.push(GameEvent::MonarchChanged { player_id: next });
        }
    }
}

/// CR 725.2: "Whenever a player takes the initiative, that player ventures
/// into Undercity."
pub open spec fn initiative_trigger(player: PlayerId) -> PendingTrigger {
    PendingTrigger {
        source_id: sentinel(player),
        controller: player,
        condition: None,
        ability: ResolvedAbility::plain(
            Effect::VentureInto { dungeon: DungeonId::Undercity },
            seq![],
            sentinel(player),
            player,
        ),
        timestamp: 0,
        target_constraints: list_of(seq![]),
        distribute: None,
        trigger_event: Some(GameEvent::InitiativeTaken { player_id: player }),
        modal: None,
        mode_abilities: None,
        description: Some(Text::Literal("Take the initiative — venture into Undercity")),
        may_trigger_origin: None,
    }
}

fn build_initiative_trigger(player: PlayerId) -> (r: PendingTrigger)
    ensures
        r == initiative_trigger(player),
{
    let source_id = dungeon_sentinel_id(player);
    PendingTrigger {
        source_id,
        controller: player,
        condition: None,
        ability: ResolvedAbility::new(
            Effect::VentureInto { dungeon: DungeonId::Undercity },
            Vec::new(),
            source_id,
            player,
        ),
        timestamp: 0,
        target_constraints: List::new(),
        distribute: None,
        trigger_event: Some(GameEvent::InitiativeTaken { player_id: player }),
        modal: None,
        mode_abilities: None,
        description: Some(Text::Literal("Take the initiative — venture into Undercity")),
        may_trigger_origin: None,
    }
}

/// The initiative passed on, where the leaving player had it: whoever takes it ventures.
pub open spec fn initiative_passed(p: Play, player: PlayerId) -> Play {
    if p.game.initiative != Some(player) {
        p
    } else if !others_remain(p.game, player) {
        Play { game: Game { initiative: None, ..p.game }, ..p }
    } else {
        let next = heir(p.game, player);
        Play {
            game: trigger_pushed(
                Game { initiative: Some(next), ..p.game },
                initiative_trigger(next),
            ),
            events: p.events.push(GameEvent::InitiativeTaken { player_id: next }).push(
                GameEvent::StackPushed { object_id: ObjectId(p.game.next_object_id) },
            ),
        }
    }
}

fn pass_initiative(state: &mut GameState, player: PlayerId, events: &mut Vec<GameEvent>)
    ensures
        (Play { game: final(state)@, events: final(events)@ }) == initiative_passed(
            Play { game: old(state)@, events: old(events)@ },
            player,
        ),
{
    if state.initiative == Some(player) {
        if !check_others_remain(state, player) {
            state.initiative = None;
        } else {
            let next = find_heir(state, player);
            state.initiative = Some(next);
            events.push(GameEvent::InitiativeTaken { player_id: next });
            push_pending_trigger_to_stack(state, build_initiative_trigger(next), events);
        }
    }
}

/// The game without the player's spells and abilities on the stack.
pub open spec fn stack_cleared(g: Game, player: PlayerId) -> Game {
    Game { stack: entries_of_others(g.stack, player, g.stack.len()), ..g }
}

/// One player gone: marked as such, with no spell or ability left on the stack, what the player
/// owns exiled from the battlefield, and the monarchy and the initiative passed on.
#[verifier::opaque]
pub open spec fn one_gone(p: Play, player: PlayerId) -> Play {
    let g = stack_cleared(marked_gone(p.game, player), player);
    let owned = owned_permanents(g, player, g.battlefield.len());
    let exiled = all_moved(Play { game: g, ..p }, owned, Zone::Exile, owned.len());
    let passive = Play {
        game: Game { auto_pass: exiled.game.auto_pass.remove(player), ..exiled.game },
        ..exiled
    };
    let passed = initiative_passed(monarch_passed(passive, player), player);
    Play { events: passed.events.push(GameEvent::PlayerEliminated { player_id: player }), ..passed }
}

/// Perform the actual elimination of a single player (CR 800.4).
fn do_eliminate(state: &mut GameState, player: PlayerId, events: &mut Vec<GameEvent>)
    ensures
        (Play { game: final(state)@, events: final(events)@ }) == one_gone(
            Play { game: old(state)@, events: old(events)@ },
            player,
        ),
{
    proof {
        reveal(one_gone);
    }
    mark_gone(state, player);
    // CR 800.4a: Remove spells they control from the stack
    drop_entries_of(&mut state.stack, player);
    // CR 800.4a: Exile permanents they own from the battlefield
    let to_exile = find_owned_permanents(state, player);
    move_all(state, &to_exile, Zone::Exile, events);
    state.auto_pass.remove(&player);
    // CR 725.4: If the monarch leaves the game, the active player becomes the monarch.
    // If the active player is also leaving, the next living player in turn order gets it.
    pass_monarch(state, player, events);
    // CR 725.4: likewise for the player who has the initiative.
    pass_initiative(state, player, events);
    events.push(GameEvent::PlayerEliminated { player_id: player });
}

/// Those of the first `n` players who are still in the game.
pub open spec fn living(g: Game, n: nat) -> Seq<PlayerId>
    decreases n,
{
    if n == 0 {
        seq![]
    } else {
        let before = living(g, (n - 1) as nat);
        if g.players[n - 1].is_eliminated {
            before
        } else {
            before.push(g.players[n - 1].id)
        }
    }
}

/// Whether all of some players sit on one team.
pub open spec fn one_team(players: Seq<PlayerId>) -> bool {
    forall|i: int| 0 <= i < players.len() ==> (#[trigger] players[i]).0 / 2 == players[0].0 / 2
}

/// CR 104.2a, CR 104.3g: whether the game is over: at most one player, or one team, is left.
pub open spec fn game_decided(g: Game) -> bool {
    let left = living(g, g.players.len());
    left.len() <= 1 || (g.format_config.team_based && one_team(left))
}

/// Who has won a game that is over: the first player left, or nobody.
pub open spec fn game_winner(g: Game) -> Option<PlayerId> {
    let left = living(g, g.players.len());
    if left.len() == 0 {
        None
    } else {
        Some(left[0])
    }
}

/// The game over, where it is decided.
pub open spec fn over_if_decided(p: Play) -> Play {
    if game_decided(p.game) {
        let winner = game_winner(p.game);
        Play {
            game: Game { waiting_for: WaitingFor::GameOver { winner }, ..p.game },
            events: p.events.push(GameEvent::GameOver { winner }),
        }
    } else {
        p
    }
}

fn find_living(state: &GameState) -> (r: Vec<PlayerId>)
    ensures
        r@ == living(state@, state@.players.len()),
{
    let mut out: Vec<PlayerId> = Vec::new();
    let mut i: usize = 0;
    while i < state.players.len()
        invariant
            i <= state.players@.len(),
            out@ == living(state@, i as nat),
        decreases state.players@.len() - i,
    {
        if !state.players[i].is_eliminated {
            out.push(state.players[i].id);
        }
        i = i + 1;
    }
    out
}

fn check_one_team(players: &Vec<PlayerId>) -> (r: bool)
    ensures
        r == one_team(players@),
{
    let mut i: usize = 0;
    while i < players.len()
        invariant
            i <= players@.len(),
            forall|j: int| 0 <= j < i ==> (#[trigger] players@[j]).0 / 2 == players@[0].0 / 2,
        decreases players@.len() - i,
    {
        if players[i].0 / 2 != players[0].0 / 2 {
            return false;
        }
        i = i + 1;
    }
    true
}

/// CR 104.2a: A player wins if all opponents have left. CR 104.3g: A team loses if all members
/// have lost.
///
/// Check if the game should end. Game ends when 1 or fewer living players/teams remain.
fn check_game_over(state: &mut GameState, events: &mut Vec<GameEvent>)
    ensures
        (Play { game: final(state)@, events: final(events)@ }) == over_if_decided(
            Play { game: old(state)@, events: old(events)@ },
        ),
{
    let living = find_living(state);
    if living.len() <= 1 || (state.format_config.team_based && check_one_team(&living)) {
        let winner = if living.len() == 0 {
            None
        } else {
            Some(living[0])
        };
        events.push(GameEvent::GameOver { winner });
        state.waiting_for = WaitingFor::GameOver { winner };
    }
}

/// The mulligans of players who are still in the game.
pub open spec fn living_entries(g: Game, entries: List<MulliganEntry>) -> Seq<MulliganEntry>
    decreases entries,
{
    match entries.node {
        None => seq![],
        Some(n) => {
            let rest = living_entries(g, n.rest);
            if alive(g, n.item.player) {
                seq![*n.item] + rest
            } else {
                rest
            }
        },
    }
}

fn find_living_entries(
    state: &GameState,
    entries: &List<MulliganEntry>,
    out: &mut Vec<MulliganEntry>,
)
    ensures
        final(out)@ == old(out)@ + living_entries(state@, *entries),
    decreases entries,
{
    match &entries.node {
        None => {},
        Some(n) => {
            if is_alive(state, n.item.player) {
                out.push(*n.item);
            }
            find_living_entries(state, &n.rest, out);
        },
    }
    assert(out@ =~= old(out)@ + living_entries(state@, *entries));
}

/// The game without the mulligan counts of players who have left.
pub open spec fn counts_pruned(g: Game) -> Game {
    Game {
        final_mulligan_counts: Map::new(
            |p: PlayerId| g.final_mulligan_counts.contains_key(p) && alive(g, p),
            |p: PlayerId| g.final_mulligan_counts[p],
        ),
        ..g
    }
}

fn prune_counts(state: &mut GameState)
    ensures
        final(state)@ == counts_pruned(old(state)@),
{
    let players = state.final_mulligan_counts.keys();
    let mut gone: Vec<PlayerId> = Vec::new();
    let mut i: usize = 0;
    while i < players.len()
        invariant
            i <= players@.len(),
            *state == *old(state),
            forall|p: PlayerId|
                #[trigger] gone@.contains(p) <==> !alive(state@, p) && players@.take(
                    i as int,
                ).contains(p),
        decreases players@.len() - i,
    {
        let player = players[i];
        let ghost prior = gone@;
        let ghost done = players@.take(i as int);
        if !is_alive(state, player) {
            gone.push(player);
        }
        i = i + 1;
        proof {
            let next = players@.take(i as int);
            assert(next =~= done.push(player));
            assert forall|p: PlayerId| #[trigger] next.contains(p) <==> done.contains(p) || p
                == player by {
                if done.contains(p) {
                    let k = choose|k: int| 0 <= k < done.len() && done[k] == p;
                    assert(next[k] == p);
                }
                if p == player {
                    assert(next[i - 1] == p);
                }
            }
            assert forall|p: PlayerId|
                #[trigger] prior.push(player).contains(p) <==> prior.contains(p) || p == player by {
                if prior.contains(p) {
                    let k = choose|k: int| 0 <= k < prior.len() && prior[k] == p;
                    assert(prior.push(player)[k] == p);
                }
                if p == player {
                    assert(prior.push(player)[prior.len() as int] == p);
                }
            }
            assert forall|p: PlayerId|
                #[trigger] gone@.contains(p) <==> !alive(state@, p) && next.contains(p) by {
                assert(prior.contains(p) <==> !alive(state@, p) && done.contains(p));
                if alive(state@, player) {
                    assert(gone@ == prior);
                } else {
                    assert(gone@ == prior.push(player));
                }
            }
        }
    }
    state.final_mulligan_counts.remove_all(&gone);
    proof {
        assert(players@.take(i as int) =~= players@);
        let before = old(state)@;
        assert(state@.final_mulligan_counts =~= counts_pruned(before).final_mulligan_counts) by {
            assert forall|p: PlayerId| before.final_mulligan_counts.contains_key(p) implies (
            gone@.contains(p) <==> !alive(before, p)) by {
                assert(players@.contains(p));
            }
        }
    }
}

/// The game without the players who have left among those that the mulligans wait for. When the
/// decisions wait for nobody any more the cards go to the bottom, and when that waits for nobody
/// any more the mulligans are over.
pub open spec fn mulligans_pruned(g: Game) -> Game {
    let counted = counts_pruned(g);
    match g.waiting_for {
        WaitingFor::MulliganDecision { pending, free_first_mulligan } => {
            let left = living_entries(g, pending);
            if left.len() == 0 {
                bottom_phase_entered(counted)
            } else {
                Game {
                    waiting_for: WaitingFor::MulliganDecision {
                        pending: list_of(left),
                        free_first_mulligan,
                    },
                    ..counted
                }
            }
        },
        WaitingFor::MulliganBottomCards { pending } => {
            let left = living_entries(g, pending);
            if left.len() == 0 {
                mulligans_finished(counted)
            } else {
                Game {
                    waiting_for: WaitingFor::MulliganBottomCards { pending: list_of(left) },
                    ..counted
                }
            }
        },
        _ => counted,
    }
}

/// CR 103.5 + CR 800.4a: Prune eliminated players from in-flight mulligan
/// pending lists. If pruning empties the decision phase, transition to the
/// bottoms phase (or finish mulligans). If it empties the bottoms phase,
/// finish mulligans directly.
fn prune_mulligan_pending(state: &mut GameState)
    ensures
        final(state)@ == mulligans_pruned(old(state)@),
{
    let mut left: Vec<MulliganEntry> = Vec::new();
    match &state.waiting_for {
        WaitingFor::MulliganDecision { pending, .. } => {
            find_living_entries(state, pending, &mut left);
            assert(left@ =~= living_entries(state@, *pending));
        },
        WaitingFor::MulliganBottomCards { pending } => {
            find_living_entries(state, pending, &mut left);
            assert(left@ =~= living_entries(state@, *pending));
        },
        _ => {},
    }
    // CR 800.4a: Drop any final-mulligan-count entries for players who have
    // been eliminated, so that the bottom phase never sees entries for them.
    prune_counts(state);
    match &state.waiting_for {
        WaitingFor::MulliganDecision { free_first_mulligan, .. } => {
            let free: bool = *free_first_mulligan;
            if left.len() == 0 {
                enter_bottom_phase(state);
            } else {
                state.waiting_for = WaitingFor::MulliganDecision {
                    pending: List::from_vec(left),
                    free_first_mulligan: free,
                };
            }
        },
        WaitingFor::MulliganBottomCards { .. } => {
            if left.len() == 0 {
                finish_mulligans(state);
            } else {
                state.waiting_for = WaitingFor::MulliganBottomCards {
                    pending: List::from_vec(left),
                };
            }
        },
        _ => {},
    }
}

/// The game not waiting for a player who has left: priority goes to the next in turn order.
pub open spec fn waiting_passed(g: Game) -> Game {
    match g.waiting_for.actor() {
        None => g,
        Some(player) => if alive(g, player) {
            g
        } else {
            Game { waiting_for: WaitingFor::Priority { player: player_after(g, player) }, ..g }
        },
    }
}

/// The first `n` of some players gone, those who are still there.
pub open spec fn several_gone(p: Play, players: Seq<PlayerId>, n: nat) -> Play
    decreases n,
{
    if n == 0 {
        p
    } else {
        let before = several_gone(p, players, (n - 1) as nat);
        if has_left(before.game, players[n - 1]) {
            before
        } else {
            one_gone(before, players[n - 1])
        }
    }
}

/// A player's whole team gone, where teams are played.
pub open spec fn team_gone(p: Play, player: PlayerId) -> Play {
    let alone = one_gone(p, player);
    if alone.game.format_config.team_based {
        let team = teammates_of(alone.game, player, alone.game.players.len());
        several_gone(alone, team, team.len())
    } else {
        alone
    }
}

/// A player gone from the game, with all that follows.
pub open spec fn player_gone(p: Play, player: PlayerId) -> Play {
    if has_left(p.game, player) {
        p
    } else {
        let over = over_if_decided(team_gone(p, player));
        if over.game.waiting_for is GameOver {
            over
        } else {
            Play { game: waiting_passed(mulligans_pruned(over.game)), ..over }
        }
    }
}

fn eliminate_team(state: &mut GameState, team: &Vec<PlayerId>, events: &mut Vec<GameEvent>)
    ensures
        (Play { game: final(state)@, events: final(events)@ }) == several_gone(
            Play { game: old(state)@, events: old(events)@ },
            team@,
            team@.len(),
        ),
{
    let ghost p = Play { game: state@, events: events@ };
    let mut i: usize = 0;
    while i < team.len()
        invariant
            i <= team@.len(),
            p == (Play { game: old(state)@, events: old(events)@ }),
            (Play { game: state@, events: events@ }) == several_gone(p, team@, i as nat),
        decreases team@.len() - i,
    {
        if !check_has_left(state, team[i]) {
            do_eliminate(state, team[i], events);
        }
        i = i + 1;
    }
}

/// Eliminate a player from the game per CR 800.4.
///
/// - Marks the player as eliminated
/// - Removes their spells from the stack
/// - Exiles all permanents they own on the battlefield
/// - Emits PlayerEliminated event
/// - For team-based formats (2HG): also eliminates all teammates
/// - Checks if the game is over (1 or fewer living players/teams remain)
pub fn eliminate_player(state: &mut GameState, player: PlayerId, events: &mut Vec<GameEvent>)
    ensures
        (Play { game: final(state)@, events: final(events)@ }) == player_gone(
            Play { game: old(state)@, events: old(events)@ },
            player,
        ),
{
    // Skip if already eliminated
    if check_has_left(state, player) {
        return ;
    }
    do_eliminate(state, player, events);
    // For team-based formats, eliminate teammates too
    if state.format_config.team_based {
        let team = teammates(state, player);
        eliminate_team(state, &team, events);
    }
    check_game_over(state, events);
    // CR 800.4a: If the active `WaitingFor` was waiting on any newly-eliminated
    // player, advance to `Priority` for the next living player so the game does not
    // deadlock waiting on a player who has left. Skip when the game just ended.
    let over: bool = match &state.waiting_for {
        WaitingFor::GameOver { .. } => true,
        _ => false,
    };
    if !over {
        // CR 103.5: For simultaneous mulligan states, prune eliminated players
        // from the pending list.
        prune_mulligan_pending(state);
        if let Some(waiting) = state.waiting_for.acting_player() {
            if !is_alive(state, waiting) {
                let next = next_player(state, waiting);
                state.waiting_for = WaitingFor::Priority { player: next };
            }
        }
    }
}

} // verus!
