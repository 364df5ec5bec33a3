//! What a departure does to each seat, to the stack, to the permanents, to the offices and to what
//! the game waits for.

use crate::ability::Effect;
use crate::effects::ring::bearer_cleared;
use crate::elimination::laws::{lemma_one_gone_permanents, lemma_owned_found, well_placed};
use crate::elimination::{
    all_moved, counts_pruned, entries_of_others, game_decided, game_winner, has_left, heir,
    initiative_passed, is_owned, living, living_entries, marked_gone, monarch_passed,
    mulligans_pruned, one_gone, one_team, others_remain, over_if_decided, owned_permanents,
    stack_cleared, waiting_passed,
};
use crate::events::GameEvent;
use crate::ids::{DungeonId, ObjectId, PlayerId, Zone};
use crate::list::{lemma_items_of, list_rest, List};
use crate::mulligan::{bottom_entries, bottom_phase_entered};
use crate::object::Player;
use crate::players::{alive, is_teammate, next_alive, player_after, teammates_of};
use crate::state::{lemma_first_seat, Game, MulliganEntry, Play, StackEntry, WaitingFor};
use crate::triggers::placing::pushed;
use crate::zones::{lemma_moved, moved, put_in, taken_out};
use vstd::prelude::*;

verus! {

/// Whether no two seats are the same player's.
pub open spec fn one_seat_each(g: Game) -> bool {
    forall|i: int, j: int|
        0 <= i < j < g.players.len() ==> (#[trigger] g.players[i]).id != (
        #[trigger] g.players[j]).id
}

/// The player of a seat has left, or is alive, as the seat says; and others remain if another seat
/// holds somebody who has not left.
pub proof fn law_seat(g: Game, i: int)
    requires
        one_seat_each(g),
        0 <= i < g.players.len(),
    ensures
        has_left(g, g.players[i].id) <==> g.players[i].is_eliminated,
        alive(g, g.players[i].id) <==> !g.players[i].is_eliminated,
        others_remain(g, g.players[i].id) <==> exists|j: int|
            0 <= j < g.players.len() && j != i && !(#[trigger] g.players[j]).is_eliminated,
{
    let player = g.players[i].id;
    if others_remain(g, player) {
        let j = choose|j: int|
            0 <= j < g.players.len() && !(#[trigger] g.players[j]).is_eliminated
                && g.players[j].id != player;
        assert(j != i);
    }
    if exists|j: int| 0 <= j < g.players.len() && j != i && !(#[trigger] g.players[j]).is_eliminated {
        let j = choose|j: int|
            0 <= j < g.players.len() && j != i && !(#[trigger] g.players[j]).is_eliminated;
        assert(g.players[j].id != player) by {
            if j < i {
                assert(g.players[j].id != g.players[i].id);
            } else {
                assert(g.players[i].id != g.players[j].id);
            }
        }
    }
}

proof fn lemma_own_seat(g: Game, i: int)
    requires
        one_seat_each(g),
        0 <= i < g.players.len(),
    ensures
        g.seat(g.players[i].id) == i,
        g.player(g.players[i].id) == Some(g.players[i]),
{
    lemma_first_seat(g.players, g.players[i].id, 0);
    let s = g.seat(g.players[i].id) as int;
    if s < i {
        assert(g.players[s].id != g.players[i].id);
    } else if s > i {
        assert(g.players[i].id != g.players[i].id);
    }
}

/// Marking a player as gone changes that seat alone, and puts the player, once, among those who
/// were eliminated.
pub proof fn law_marked(g: Game, i: int)
    requires
        one_seat_each(g),
        0 <= i < g.players.len(),
    ensures
        marked_gone(g, g.players[i].id).players == g.players.update(
            i,
            Player { is_eliminated: true, ..g.players[i] },
        ),
        forall|q: PlayerId| #[trigger]
            marked_gone(g, g.players[i].id).eliminated_players.contains(q) <==> q
                == g.players[i].id || g.eliminated_players.contains(q),
        g.eliminated_players.no_duplicates() ==> marked_gone(
            g,
            g.players[i].id,
        ).eliminated_players.no_duplicates(),
{
    let player = g.players[i].id;
    lemma_own_seat(g, i);
    let old_list = g.eliminated_players;
    let new_list = marked_gone(g, player).eliminated_players;
    assert forall|q: PlayerId| #[trigger] new_list.contains(q) <==> q == player
        || old_list.contains(q) by {
        if old_list.contains(q) {
            let k = choose|k: int| 0 <= k < old_list.len() && old_list[k] == q;
            assert(new_list[k] == q);
        }
        if q == player && !old_list.contains(q) {
            assert(new_list[old_list.len() as int] == q);
        }
    }
}

proof fn lemma_others_kept(stack: Seq<StackEntry>, player: PlayerId, n: nat)
    requires
        n <= stack.len(),
    ensures
        entries_of_others(stack, player, n) == stack.take(n as int).filter(
            |e: StackEntry| e.controller != player,
        ),
    decreases n,
{
    reveal(Seq::filter);
    if n > 0 {
        lemma_others_kept(stack, player, (n - 1) as nat);
        assert(stack.take(n as int).drop_last() =~= stack.take(n - 1));
    }
}

/// CR 800.4a: of the stack, just what others control stays, in its order.
pub proof fn law_stack_cleared(g: Game, player: PlayerId)
    ensures
        stack_cleared(g, player) == (Game {
            stack: g.stack.filter(|e: StackEntry| e.controller != player),
            ..g
        }),
{
    lemma_others_kept(g.stack, player, g.stack.len());
    assert(g.stack.take(g.stack.len() as int) =~= g.stack);
}

/// Of the objects that there are, just those that were moved lie where they went.
pub proof fn lemma_zones_after(p: Play, ids: Seq<ObjectId>, to: Zone, n: nat, id: ObjectId)
    requires
        n <= ids.len(),
        p.game.objects.contains_key(id),
    ensures
        all_moved(p, ids, to, n).game.objects.contains_key(id),
        all_moved(p, ids, to, n).game.objects[id].zone == (if ids.take(n as int).contains(id) {
            to
        } else {
            p.game.objects[id].zone
        }),
    decreases n,
{
    if n > 0 {
        lemma_zones_after(p, ids, to, (n - 1) as nat, id);
        let before = all_moved(p, ids, to, (n - 1) as nat).game;
        lemma_moved(before, ids[n - 1], to);
        let prior = ids.take(n - 1);
        let now = ids.take(n as int);
        assert(now =~= prior.push(ids[n - 1]));
        if prior.contains(id) {
            let k = choose|k: int| 0 <= k < prior.len() && prior[k] == id;
            assert(now[k] == id);
        }
        if ids[n - 1] == id {
            assert(now[n - 1] == id);
        }
    }
}

/// CR 800.4a: as one player leaves, just the permanents that the player owns leave the
/// battlefield, and they are exiled.
pub proof fn law_permanents_exiled(p: Play, player: PlayerId, id: ObjectId)
    requires
        well_placed(p.game),
        p.game.battlefield.contains(id),
    ensures
        one_gone(p, player).game.battlefield.contains(id) <==> p.game.objects[id].owner != player,
        one_gone(p, player).game.objects.contains_key(id),
        one_gone(p, player).game.objects[id].zone == (if p.game.objects[id].owner == player {
            Zone::Exile
        } else {
            Zone::Battlefield
        }),
{
    lemma_one_gone_permanents(p, player);
    reveal(one_gone);
    reveal(pushed);
    let g = stack_cleared(marked_gone(p.game, player), player);
    let owned = owned_permanents(g, player, g.battlefield.len());
    lemma_owned_found(g, player, g.battlefield.len());
    lemma_zones_after(Play { game: g, ..p }, owned, Zone::Exile, owned.len(), id);
    assert(owned.take(owned.len() as int) =~= owned);
    if owned.contains(id) {
        let j = choose|j: int| 0 <= j < owned.len() && owned[j] == id;
        assert(is_owned(g, owned[j], player));
    }
    let k = choose|k: int| 0 <= k < p.game.battlefield.len() && p.game.battlefield[k] == id;
    assert(p.game.on_battlefield(p.game.battlefield[k]));
}

/// As one player leaves, the player is among those eliminated, passes nothing automatically any
/// more, and the departure is the last thing that is told of it (CR 800.4).
pub proof fn law_departure_told(p: Play, player: PlayerId)
    ensures
        ({
            let r = one_gone(p, player);
            &&& !r.game.auto_pass.contains_key(player)
            &&& forall|q: PlayerId|
                q != player ==> (#[trigger] r.game.auto_pass.contains_key(q)
                    <==> p.game.auto_pass.contains_key(q))
            &&& r.events.len() > 0
            &&& r.events.last() == (GameEvent::PlayerEliminated { player_id: player })
        }),
{
    reveal(one_gone);
    reveal(pushed);
    let g = stack_cleared(marked_gone(p.game, player), player);
    let owned = owned_permanents(g, player, g.battlefield.len());
    lemma_auto_pass_stays(Play { game: g, ..p }, owned, Zone::Exile, owned.len());
}

proof fn lemma_auto_pass_stays(p: Play, ids: Seq<ObjectId>, to: Zone, n: nat)
    ensures
        all_moved(p, ids, to, n).game.auto_pass == p.game.auto_pass,
    decreases n,
{
    if n > 0 {
        lemma_auto_pass_stays(p, ids, to, (n - 1) as nat);
        let before = all_moved(p, ids, to, (n - 1) as nat).game;
        lemma_move_keeps_auto_pass(before, ids[n - 1], to);
    }
}

proof fn lemma_move_keeps_auto_pass(g: Game, id: ObjectId, to: Zone)
    ensures
        moved(g, id, to).auto_pass == g.auto_pass,
{
    reveal(moved);
    reveal(taken_out);
    reveal(put_in);
    reveal(bearer_cleared);
}

/// The next player is the first one still in the game, going round the table from a seat; or the
/// same player where nobody is (CR 101.4, CR 800.4).
pub proof fn law_next_player(g: Game, i: int, k: int)
    requires
        one_seat_each(g),
        0 <= i < g.players.len(),
        1 <= k <= g.players.len(),
        forall|m: int|
            1 <= m < k ==> (
            #[trigger] g.players[(i + m) % g.players.len() as int]).is_eliminated,
    ensures
        !g.players[(i + k) % g.players.len() as int].is_eliminated ==> player_after(
            g,
            g.players[i].id,
        ) == g.players[(i + k) % g.players.len() as int].id,
        k == g.players.len() && g.players[(i + k) % g.players.len() as int].is_eliminated
            ==> player_after(g, g.players[i].id) == g.players[i].id,
{
    lemma_own_seat(g, i);
    lemma_skips_gone(g, i as nat, 1, g.players[i].id, k as nat);
}

proof fn lemma_skips_gone(g: Game, seat: nat, from: nat, fallback: PlayerId, k: nat)
    requires
        1 <= from <= k <= g.players.len(),
        forall|m: int|
            from <= m < k ==> (
            #[trigger] g.players[(seat + m) % g.players.len() as int]).is_eliminated,
    ensures
        next_alive(g.players, seat, from, fallback) == next_alive(g.players, seat, k, fallback),
        !g.players[(seat + k) as int % g.players.len() as int].is_eliminated ==> next_alive(
            g.players,
            seat,
            k,
            fallback,
        ) == g.players[(seat + k) as int % g.players.len() as int].id,
        k == g.players.len() && g.players[(seat + k) as int
            % g.players.len() as int].is_eliminated ==> next_alive(g.players, seat, k, fallback)
            == fallback,
    decreases k - from,
{
    reveal_with_fuel(next_alive, 2);
    if from < k {
        assert(g.players[(seat + from as int) % g.players.len() as int].is_eliminated);
        lemma_skips_gone(g, seat, from + 1, fallback, k);
    }
}

/// CR 725.4: the monarchy of a player who leaves goes to the active player, or to the next player
/// where that one leaves or has left; and to nobody where nobody else remains. It is told.
pub proof fn law_monarch_passes(p: Play, i: int, a: int)
    requires
        one_seat_each(p.game),
        0 <= i < p.game.players.len(),
        0 <= a < p.game.players.len(),
        p.game.active_player == p.game.players[a].id,
    ensures
        ({
            let g = p.game;
            let player = g.players[i].id;
            let r = monarch_passed(p, player);
            let others = exists|j: int|
                0 <= j < g.players.len() && j != i && !(#[trigger] g.players[j]).is_eliminated;
            let next = if a != i && !g.players[a].is_eliminated {
                g.players[a].id
            } else {
                player_after(g, player)
            };
            &&& g.monarch != Some(player) ==> r == p
            &&& g.monarch == Some(player) && !others ==> r.game == (Game { monarch: None, ..g })
                && r.events == p.events
            &&& g.monarch == Some(player) && others ==> r.game == (Game {
                monarch: Some(next),
                ..g
            }) && r.events == p.events.push(GameEvent::MonarchChanged { player_id: next })
        }),
{
    law_seat(p.game, i);
    law_seat(p.game, a);
    lemma_distinct(p.game, a, i);
}

proof fn lemma_distinct(g: Game, a: int, b: int)
    requires
        one_seat_each(g),
        0 <= a < g.players.len(),
        0 <= b < g.players.len(),
    ensures
        a != b ==> g.players[a].id != g.players[b].id,
{
    if a < b {
        assert(g.players[a].id != g.players[b].id);
    } else if b < a {
        assert(g.players[b].id != g.players[a].id);
    }
}

/// CR 725.4, CR 725.2: the initiative of a player who leaves goes on as the monarchy does, and
/// whoever takes it ventures into Undercity: an ability that does so goes on the stack.
pub proof fn law_initiative_passes(p: Play, i: int, a: int)
    requires
        one_seat_each(p.game),
        0 <= i < p.game.players.len(),
        0 <= a < p.game.players.len(),
        p.game.active_player == p.game.players[a].id,
    ensures
        ({
            let g = p.game;
            let player = g.players[i].id;
            let r = initiative_passed(p, player);
            let others = exists|j: int|
                0 <= j < g.players.len() && j != i && !(#[trigger] g.players[j]).is_eliminated;
            let next = if a != i && !g.players[a].is_eliminated {
                g.players[a].id
            } else {
                player_after(g, player)
            };
            &&& g.initiative != Some(player) ==> r == p
            &&& g.initiative == Some(player) && !others ==> r.game == (Game {
                initiative: None,
                ..g
            }) && r.events == p.events
            &&& g.initiative == Some(player) && others ==> {
                &&& r.game.initiative == Some(next)
                &&& r.game.stack.len() == g.stack.len() + 1
                &&& r.game.stack.drop_last() == g.stack
                &&& r.game.stack.last().controller == next
                &&& r.game.stack.last().id == ObjectId(g.next_object_id)
                &&& r.game.stack.last().kind is TriggeredAbility
                &&& r.game.stack.last().kind->TriggeredAbility_ability.effect == (
                Effect::VentureInto { dungeon: DungeonId::Undercity })
                &&& r.game.stack.last().kind->TriggeredAbility_ability.controller == next
                &&& r.game.players == g.players
                &&& r.game.monarch == g.monarch
                &&& r.events == p.events.push(GameEvent::InitiativeTaken { player_id: next }).push(
                    GameEvent::StackPushed { object_id: ObjectId(g.next_object_id) },
                )
            }
        }),
{
    law_seat(p.game, i);
    law_seat(p.game, a);
    lemma_distinct(p.game, a, i);
    reveal(pushed);
    let g = p.game;
    let next = heir(g, g.players[i].id);
    let r = initiative_passed(p, g.players[i].id);
    if g.initiative == Some(g.players[i].id) && others_remain(g, g.players[i].id) {
        assert(r.game.stack.drop_last() =~= g.stack);
    }
}

proof fn lemma_living_seats(g: Game, n: nat)
    requires
        n <= g.players.len(),
    ensures
        forall|k: int|
            0 <= k < living(g, n).len() ==> exists|i: int|
                #![trigger g.players[i]]
                0 <= i < n && !g.players[i].is_eliminated && g.players[i].id == #[trigger] living(
                    g,
                    n,
                )[k],
        forall|i: int|
            0 <= i < n && !(#[trigger] g.players[i]).is_eliminated ==> living(g, n).contains(
                g.players[i].id,
            ),
        living(g, n).len() >= 1 ==> exists|i: int|
            #![trigger g.players[i]]
            0 <= i < n && !g.players[i].is_eliminated && g.players[i].id == living(g, n)[0]
                && forall|j: int| 0 <= j < i ==> (#[trigger] g.players[j]).is_eliminated,
        living(g, n).len() == 0 <==> forall|i: int|
            0 <= i < n ==> (#[trigger] g.players[i]).is_eliminated,
        living(g, n).len() <= 1 <==> forall|i: int, j: int|
            0 <= i < j < n ==> (#[trigger] g.players[i]).is_eliminated || (
            #[trigger] g.players[j]).is_eliminated,
    decreases n,
{
    if n > 0 {
        let m = (n - 1) as nat;
        lemma_living_seats(g, m);
        let before = living(g, m);
        let after = living(g, n);
        let p = g.players[n - 1];
        assert(after == if p.is_eliminated {
            before
        } else {
            before.push(p.id)
        });
        assert forall|k: int| 0 <= k < after.len() implies exists|i: int|
            #![trigger g.players[i]]
            0 <= i < n && !g.players[i].is_eliminated && g.players[i].id == #[trigger] after[k] by {
            if k < before.len() {
                assert(after[k] == before[k]);
                let i = choose|i: int|
                    #![trigger g.players[i]]
                    0 <= i < m && !g.players[i].is_eliminated && g.players[i].id == before[k];
                assert(0 <= i < n && !g.players[i].is_eliminated && g.players[i].id == after[k]);
            } else {
                assert(g.players[n - 1].id == after[k]);
            }
        }
        assert forall|i: int| 0 <= i < n && !(
        #[trigger] g.players[i]).is_eliminated implies after.contains(g.players[i].id) by {
            if i < m {
                assert(before.contains(g.players[i].id));
                let k = choose|k: int| 0 <= k < before.len() && before[k] == g.players[i].id;
                assert(after[k] == g.players[i].id);
            } else {
                assert(after[before.len() as int] == g.players[i].id);
            }
        }
        if before.len() >= 1 {
            let i = choose|i: int|
                #![trigger g.players[i]]
                0 <= i < m && !g.players[i].is_eliminated && g.players[i].id == before[0]
                    && forall|j: int| 0 <= j < i ==> (#[trigger] g.players[j]).is_eliminated;
            assert(!g.players[i].is_eliminated && g.players[i].id == after[0]);
        } else if after.len() >= 1 {
            assert(!g.players[n - 1].is_eliminated && g.players[n - 1].id == after[0]);
            assert(forall|j: int| 0 <= j < n - 1 ==> (#[trigger] g.players[j]).is_eliminated);
        }
        if before.len() >= 1 {
            let i = choose|i: int|
                #![trigger g.players[i]]
                0 <= i < m && !g.players[i].is_eliminated && g.players[i].id == before[0];
            if !p.is_eliminated {
                assert(!g.players[i].is_eliminated && !g.players[n - 1].is_eliminated);
            }
        }
        if before.len() > 1 {
            let (i, j) = choose|i: int, j: int|
                0 <= i < j < m && !((#[trigger] g.players[i]).is_eliminated) && !(
                (#[trigger] g.players[j]).is_eliminated);
            assert(!g.players[i].is_eliminated && !g.players[j].is_eliminated);
        }
    }
}

/// CR 104.2a, CR 104.3g: the game is decided exactly if no two seats hold players still in the
/// game; or, where teams are played, if all who are still in it are of one team. The winner is
/// whoever of them sits first, or nobody.
pub proof fn law_decided(g: Game)
    ensures
        game_decided(g) <==> (forall|i: int, j: int|
            0 <= i < j < g.players.len() ==> (#[trigger] g.players[i]).is_eliminated || (
            #[trigger] g.players[j]).is_eliminated) || (g.format_config.team_based && forall|
            i: int,
            j: int,
        |
            0 <= i < j < g.players.len() && !(#[trigger] g.players[i]).is_eliminated && !(
            #[trigger] g.players[j]).is_eliminated ==> g.players[i].id.0 / 2 == g.players[j].id.0
                / 2),
        game_winner(g) is None <==> forall|i: int|
            0 <= i < g.players.len() ==> (#[trigger] g.players[i]).is_eliminated,
        game_winner(g) is Some ==> exists|i: int|
            #![trigger g.players[i]]
            0 <= i < g.players.len() && !g.players[i].is_eliminated && Some(g.players[i].id)
                == game_winner(g) && forall|j: int|
                0 <= j < i ==> (#[trigger] g.players[j]).is_eliminated,
{
    let n = g.players.len();
    let left = living(g, n);
    lemma_living_seats(g, n);
    if left.len() > 1 {
        if one_team(left) {
            assert forall|i: int, j: int|
                0 <= i < j < n && !(#[trigger] g.players[i]).is_eliminated && !(
                #[trigger] g.players[j]).is_eliminated implies g.players[i].id.0 / 2
                == g.players[j].id.0 / 2 by {
                let a = choose|a: int| 0 <= a < left.len() && left[a] == g.players[i].id;
                let b = choose|b: int| 0 <= b < left.len() && left[b] == g.players[j].id;
                assert(left[a].0 / 2 == left[0].0 / 2);
                assert(left[b].0 / 2 == left[0].0 / 2);
            }
        } else {
            let a = choose|a: int| 0 <= a < left.len() && (#[trigger] left[a]).0 / 2 != left[0].0 / 2;
            assert(left[a] != left[0]);
            let i = choose|i: int|
                #![trigger g.players[i]]
                0 <= i < n && !g.players[i].is_eliminated && g.players[i].id == left[a];
            let j = choose|j: int|
                #![trigger g.players[j]]
                0 <= j < n && !g.players[j].is_eliminated && g.players[j].id == left[0];
            assert(g.players[i].id.0 / 2 != g.players[j].id.0 / 2);
            assert(i != j);
        }
    }
}

/// The end of the game is told with its winner, and the game waits for nobody any more; a game
/// that is not decided goes on as it was.
pub proof fn law_game_over(p: Play)
    ensures
        game_decided(p.game) ==> over_if_decided(p).game == (Game {
            waiting_for: WaitingFor::GameOver { winner: game_winner(p.game) },
            ..p.game
        }) && over_if_decided(p).events == p.events.push(
            GameEvent::GameOver { winner: game_winner(p.game) },
        ),
        !game_decided(p.game) ==> over_if_decided(p) == p,
{
}

/// Teams are pairs of neighbours: the player of an even number and the one of the next.
pub proof fn law_teammates(k: u8, other: PlayerId)
    requires
        k < 128,
    ensures
        is_teammate(PlayerId((2 * k) as u8), other) <==> other.0 == 2 * k + 1,
        k < 128 ==> (is_teammate(PlayerId((2 * k + 1) as u8), other) <==> other.0 == 2 * k),
{
}

/// The teammates of a player are all the players, in the order of their seats, who sit with them.
pub proof fn law_team(g: Game, player: PlayerId)
    ensures
        teammates_of(g, player, g.players.len()) == g.players.filter(
            |p: Player| p.id != player && p.id.0 / 2 == player.0 / 2,
        ).map_values(|p: Player| p.id),
{
    lemma_team_filter(g, player, g.players.len());
    assert(g.players.take(g.players.len() as int) =~= g.players);
}

proof fn lemma_team_filter(g: Game, player: PlayerId, n: nat)
    requires
        n <= g.players.len(),
    ensures
        teammates_of(g, player, n) == g.players.take(n as int).filter(
            |p: Player| p.id != player && p.id.0 / 2 == player.0 / 2,
        ).map_values(|p: Player| p.id),
    decreases n,
{
    reveal(Seq::filter);
    let some = g.players.take(n as int);
    if n > 0 {
        lemma_team_filter(g, player, (n - 1) as nat);
        assert(some.drop_last() =~= g.players.take(n - 1));
    }
    assert(teammates_of(g, player, n) =~= some.filter(
        |p: Player| p.id != player && p.id.0 / 2 == player.0 / 2,
    ).map_values(|p: Player| p.id));
}

/// Who the game waits for, where it waits for one player, is the one it names.
pub proof fn law_actor(w: WaitingFor, player: PlayerId)
    ensures
        w.actor() == Some(player) <==> match w {
            WaitingFor::Priority { player: q } => q == player,
            WaitingFor::AssignCombatDamage { player: q, .. } => q == player,
            WaitingFor::DistributeAmong { player: q, .. } => q == player,
            WaitingFor::ChooseRingBearer { player: q, .. } => q == player,
            WaitingFor::ChooseDungeon { player: q, .. } => q == player,
            WaitingFor::ChooseDungeonRoom { player: q, .. } => q == player,
            WaitingFor::GameOver { .. } => false,
            WaitingFor::MulliganDecision { .. } => false,
            WaitingFor::MulliganBottomCards { .. } => false,
        },
{
}

/// CR 800.4a: a game that waits for a player who has left gives priority to the next player; one
/// that waits for another, or for nobody, goes on as it was.
pub proof fn law_waiting_passes(g: Game, i: int)
    requires
        one_seat_each(g),
        0 <= i < g.players.len(),
    ensures
        g.waiting_for.actor() == Some(g.players[i].id) && g.players[i].is_eliminated
            ==> waiting_passed(g) == (Game {
            waiting_for: WaitingFor::Priority { player: player_after(g, g.players[i].id) },
            ..g
        }),
        g.waiting_for.actor() == Some(g.players[i].id) && !g.players[i].is_eliminated
            ==> waiting_passed(g) == g,
        g.waiting_for.actor() is None ==> waiting_passed(g) == g,
{
    law_seat(g, i);
}

proof fn lemma_entries_filter(g: Game, entries: List<MulliganEntry>)
    ensures
        living_entries(g, entries) == entries@.filter(|e: MulliganEntry| alive(g, e.player)),
    decreases entries,
{
    reveal(Seq::filter);
    let keep = |e: MulliganEntry| alive(g, e.player);
    if entries.node is Some {
        let rest = list_rest(entries);
        lemma_entries_filter(g, rest);
        let first = *entries.node->0.item;
        assert(entries@ =~= seq![first] + rest@);
        let none = Seq::<MulliganEntry>::empty();
        assert(seq![first].drop_last() =~= none);
        assert(none.filter(keep) =~= none);
        Seq::filter_distributes_over_add(seq![first], rest@, keep);
        assert(seq![first].filter(keep) =~= if keep(first) {
            seq![first]
        } else {
            Seq::<MulliganEntry>::empty()
        });
        assert(living_entries(g, entries) =~= entries@.filter(keep));
    } else {
        assert(entries@ =~= Seq::<MulliganEntry>::empty());
        assert(living_entries(g, entries) =~= entries@.filter(keep));
    }
}

/// CR 103.5, CR 800.4a: a mulligan waits for just those of the players it waited for who are still
/// in the game, in their order; and no count is kept of a player who is not.
pub proof fn law_mulligans_pruned(g: Game, pending: List<MulliganEntry>, free: bool)
    ensures
        ({
            let left = pending@.filter(|e: MulliganEntry| alive(g, e.player));
            let r = mulligans_pruned(g);
            &&& g.waiting_for == (WaitingFor::MulliganDecision {
                pending,
                free_first_mulligan: free,
            }) && left.len() > 0 ==> r.waiting_for is MulliganDecision
                && r.waiting_for->MulliganDecision_pending@ == left
                && r.waiting_for->free_first_mulligan == free
            &&& g.waiting_for == (WaitingFor::MulliganDecision {
                pending,
                free_first_mulligan: free,
            }) && left.len() == 0 ==> r == bottom_phase_entered(counts_pruned(g))
            &&& g.waiting_for == (WaitingFor::MulliganBottomCards { pending }) && left.len() > 0
                ==> r.waiting_for is MulliganBottomCards
                && r.waiting_for->MulliganBottomCards_pending@ == left
            &&& g.waiting_for == (WaitingFor::MulliganBottomCards { pending }) && left.len() == 0
                ==> r.waiting_for == (WaitingFor::Priority { player: g.active_player })
                && r.final_mulligan_counts == Map::<PlayerId, u32>::empty()
            &&& !(g.waiting_for is MulliganDecision) && !(g.waiting_for is MulliganBottomCards)
                ==> r.waiting_for == g.waiting_for
            &&& r.players == g.players && r.stack == g.stack && r.battlefield == g.battlefield
        }),
        forall|q: PlayerId| #[trigger]
            counts_pruned(g).final_mulligan_counts.contains_key(q) <==> alive(g, q)
                && g.final_mulligan_counts.contains_key(q),
        forall|q: PlayerId|
            alive(g, q) && g.final_mulligan_counts.contains_key(q)
                ==> #[trigger] counts_pruned(g).final_mulligan_counts[q]
                == g.final_mulligan_counts[q],
{
    lemma_entries_filter(g, pending);
    lemma_items_of(living_entries(g, pending));
}

/// Whether a player has cards to put on the bottom, so many as were counted.
pub open spec fn owes_cards(g: Game, entry: MulliganEntry, n: int) -> bool {
    &&& entry.count > 0
    &&& g.final_mulligan_counts.contains_key(entry.player)
    &&& g.final_mulligan_counts[entry.player] == entry.count
    &&& exists|i: int| 0 <= i < n && (#[trigger] g.players[i]).id == entry.player
}

proof fn lemma_bottoms(g: Game, n: nat, entry: MulliganEntry)
    requires
        n <= g.players.len(),
    ensures
        bottom_entries(g, n).contains(entry) <==> owes_cards(g, entry, n as int),
    decreases n,
{
    if n > 0 {
        lemma_bottoms(g, (n - 1) as nat, entry);
        let before = bottom_entries(g, (n - 1) as nat);
        let after = bottom_entries(g, n);
        let player = g.players[n - 1].id;
        if before.contains(entry) {
            let k = choose|k: int| 0 <= k < before.len() && before[k] == entry;
            assert(after[k] == entry);
            let i = choose|i: int| 0 <= i < n - 1 && (#[trigger] g.players[i]).id == entry.player;
            assert(0 <= i < n && g.players[i].id == entry.player);
        }
        if owes_cards(g, entry, n as int) && !owes_cards(g, entry, n - 1) {
            assert(player == entry.player);
            assert(after[before.len() as int] == entry);
        }
        if after.contains(entry) && !before.contains(entry) {
            let k = choose|k: int| 0 <= k < after.len() && after[k] == entry;
            if k < before.len() {
                assert(before[k] == entry);
            }
            assert(g.players[n - 1].id == entry.player);
        }
    }
}

/// CR 103.5: once all have decided, the game waits for just those players who took mulligans to
/// put as many cards on the bottom; where there are none it begins, with the active player.
pub proof fn law_bottom_phase(g: Game, entry: MulliganEntry)
    ensures
        ({
            let r = bottom_phase_entered(g);
            &&& owes_cards(g, entry, g.players.len() as int) ==> r.waiting_for is MulliganBottomCards
                && r.waiting_for->MulliganBottomCards_pending@.contains(entry)
            &&& r.waiting_for is MulliganBottomCards && r.waiting_for != g.waiting_for
                && r.waiting_for->MulliganBottomCards_pending@.contains(entry) ==> owes_cards(
                g,
                entry,
                g.players.len() as int,
            )
            &&& !(r.waiting_for is MulliganBottomCards) ==> r == (Game {
                final_mulligan_counts: Map::empty(),
                waiting_for: WaitingFor::Priority { player: g.active_player },
                ..g
            })
        }),
{
    lemma_bottoms(g, g.players.len(), entry);
    lemma_items_of(bottom_entries(g, g.players.len()));
}

} // verus!
