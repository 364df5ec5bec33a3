//! What holds whenever a player leaves the game.

use crate::elimination::{
    all_moved, counts_pruned, entries_of_others, game_decided, game_winner, has_left, heir,
    initiative_passed, is_owned, living, living_entries, marked_gone, monarch_passed,
    mulligans_pruned, one_gone, others_remain, owned_permanents, player_gone, several_gone,
    stack_cleared, team_gone,
};
use crate::events::GameEvent;
use crate::ids::{ObjectId, PlayerId, Zone};
use crate::list::{lemma_items_of, list_rest, List};
use crate::mulligan::bottom_entries;
use crate::players::{alive, is_teammate, law_player_after, next_alive, player_after, teammates_of};
use crate::state::{
    first_seat, lemma_first_seat, same_seats, Game, MulliganEntry, Play, StackEntry, WaitingFor,
};
use crate::triggers::placing::pushed;
use crate::zones::{entries_without, lemma_ids_without, lemma_moved, move_events, same_besides};
use vstd::prelude::*;

verus! {

/// How many players are still in the game.
pub open spec fn living_count(g: Game) -> nat {
    living(g, g.players.len()).len()
}

/// Whether no two seats are one player's.
pub open spec fn distinct_seats(g: Game) -> bool {
    forall|i: int, j: int|
        0 <= i < j < g.players.len() ==> (#[trigger] g.players[i]).id != (#[trigger] g.players[j]).id
}

/// Whether the players of a game are those of another.
pub open spec fn same_players(a: Game, b: Game) -> bool {
    forall|q: PlayerId| (#[trigger] a.player(q) is Some) == (b.player(q) is Some)
}

/// Whether every entry of one stack stands on another.
pub open spec fn stack_within(part: Seq<StackEntry>, whole: Seq<StackEntry>) -> bool {
    forall|i: int| 0 <= i < part.len() ==> whole.contains(#[trigger] part[i])
}

proof fn lemma_same_living(a: Game, b: Game, n: nat)
    requires
        same_seats(a, b),
        n <= a.players.len(),
    ensures
        living(a, n) == living(b, n),
    decreases n,
{
    if n > 0 {
        lemma_same_living(a, b, (n - 1) as nat);
        assert(a.players[n - 1].id == b.players[n - 1].id);
    }
}

proof fn lemma_same_first_seat(a: Game, b: Game, id: PlayerId, from: nat)
    requires
        same_seats(a, b),
    ensures
        first_seat(a.players, id, from) == first_seat(b.players, id, from),
    decreases a.players.len() - from,
{
    if from < a.players.len() {
        assert(a.players[from as int].id == b.players[from as int].id);
        lemma_same_first_seat(a, b, id, from + 1);
    }
}

proof fn lemma_same_next_alive(a: Game, b: Game, seat: nat, k: nat, fallback: PlayerId)
    requires
        same_seats(a, b),
    ensures
        next_alive(a.players, seat, k, fallback) == next_alive(b.players, seat, k, fallback),
    decreases a.players.len() + 1 - k,
{
    if k <= a.players.len() && a.players.len() > 0 {
        let at = (seat + k) as int % a.players.len() as int;
        assert(0 <= at < a.players.len()) by (nonlinear_arith)
            requires
                at == (seat + k) as int % a.players.len() as int,
                a.players.len() > 0,
        ;
        assert(a.players[at].id == b.players[at].id);
        lemma_same_next_alive(a, b, seat, k + 1, fallback);
    }
}

/// Who is there, who has left and who comes next is a matter of the seats alone.
pub proof fn lemma_same_seats(a: Game, b: Game)
    requires
        same_seats(a, b),
    ensures
        forall|p: PlayerId| #[trigger] alive(a, p) == alive(b, p),
        forall|p: PlayerId| #[trigger] has_left(a, p) == has_left(b, p),
        forall|p: PlayerId| #[trigger] others_remain(a, p) == others_remain(b, p),
        forall|p: PlayerId| #[trigger] player_after(a, p) == player_after(b, p),
        a.active_player == b.active_player ==> forall|p: PlayerId| #[trigger]
            heir(a, p) == heir(b, p),
        living(a, a.players.len()) == living(b, b.players.len()),
        distinct_seats(a) == distinct_seats(b),
        same_players(a, b),
{
    lemma_same_living(a, b, a.players.len());
    assert forall|i: int| 0 <= i < a.players.len() implies (#[trigger] b.players[i]).id
        == a.players[i].id && b.players[i].is_eliminated == a.players[i].is_eliminated by {
        assert(a.players[i].id == b.players[i].id);
    }
    assert forall|p: PlayerId| #[trigger] alive(a, p) == alive(b, p) by {
        if alive(a, p) {
            let i = choose|i: int|
                0 <= i < a.players.len() && (#[trigger] a.players[i]).id == p
                    && !a.players[i].is_eliminated;
            assert(b.players[i].id == p);
        }
        if alive(b, p) {
            let i = choose|i: int|
                0 <= i < b.players.len() && (#[trigger] b.players[i]).id == p
                    && !b.players[i].is_eliminated;
            assert(a.players[i].id == p);
        }
    }
    assert forall|p: PlayerId| #[trigger] has_left(a, p) == has_left(b, p) by {
        if has_left(a, p) {
            let i = choose|i: int|
                0 <= i < a.players.len() && (#[trigger] a.players[i]).id == p
                    && a.players[i].is_eliminated;
            assert(b.players[i].id == p);
        }
        if has_left(b, p) {
            let i = choose|i: int|
                0 <= i < b.players.len() && (#[trigger] b.players[i]).id == p
                    && b.players[i].is_eliminated;
            assert(a.players[i].id == p);
        }
    }
    assert forall|p: PlayerId| #[trigger] others_remain(a, p) == others_remain(b, p) by {
        if others_remain(a, p) {
            let i = choose|i: int|
                0 <= i < a.players.len() && !(#[trigger] a.players[i]).is_eliminated
                    && a.players[i].id != p;
            assert(!b.players[i].is_eliminated);
        }
        if others_remain(b, p) {
            let i = choose|i: int|
                0 <= i < b.players.len() && !(#[trigger] b.players[i]).is_eliminated
                    && b.players[i].id != p;
            assert(!a.players[i].is_eliminated);
        }
    }
    assert forall|p: PlayerId| #[trigger] player_after(a, p) == player_after(b, p) by {
        lemma_same_first_seat(a, b, p, 0);
        lemma_same_next_alive(a, b, a.seat(p), 1, p);
    }
    assert forall|p: PlayerId| (#[trigger] a.player(p) is Some) == (b.player(p) is Some) by {
        lemma_same_first_seat(a, b, p, 0);
    }
}

/// Someone who is marked as gone has left and no longer counts among the living.
proof fn lemma_marked(g: Game, player: PlayerId, n: nat)
    requires
        n <= g.players.len(),
    ensures
        living(marked_gone(g, player), n).len() <= living(g, n).len(),
        g.seat(player) < n && !g.players[g.seat(player) as int].is_eliminated
            ==> living(marked_gone(g, player), n).len() < living(g, n).len(),
    decreases n,
{
    lemma_first_seat(g.players, player, 0);
    if n > 0 {
        lemma_marked(g, player, (n - 1) as nat);
    }
}

/// Marking someone as gone brings no one back.
proof fn lemma_marked_stay(g: Game, player: PlayerId, other: PlayerId)
    ensures
        has_left(g, other) ==> has_left(marked_gone(g, player), other),
        has_left(marked_gone(g, player), other) && other != player ==> has_left(g, other),
        g.player(player) is Some ==> has_left(marked_gone(g, player), player),
        distinct_seats(g) ==> distinct_seats(marked_gone(g, player)),
        distinct_seats(g) ==> !alive(marked_gone(g, player), player),
        other != player ==> (alive(marked_gone(g, player), other) <==> alive(g, other)),
        !alive(g, other) ==> !alive(marked_gone(g, player), other),
        forall|p: PlayerId| (#[trigger] marked_gone(g, player).player(p) is Some) == (g.player(p)
            is Some),
{
    lemma_first_seat(g.players, player, 0);
    let m = marked_gone(g, player);
    let seat = g.seat(player);
    if has_left(g, other) {
        let i = choose|i: int|
            0 <= i < g.players.len() && (#[trigger] g.players[i]).id == other
                && g.players[i].is_eliminated;
        assert(m.players[i].id == other && m.players[i].is_eliminated);
    }
    if has_left(m, other) && other != player {
        let i = choose|i: int|
            0 <= i < m.players.len() && (#[trigger] m.players[i]).id == other
                && m.players[i].is_eliminated;
        assert(g.players[i].id == other && g.players[i].is_eliminated);
    }
    if g.player(player) is Some {
        assert(m.players[seat as int].id == player && m.players[seat as int].is_eliminated);
    }
    assert forall|i: int| 0 <= i < g.players.len() implies (#[trigger] m.players[i]).id
        == g.players[i].id by {}
    if distinct_seats(g) && alive(m, player) {
        let i = choose|i: int|
            0 <= i < m.players.len() && (#[trigger] m.players[i]).id == player
                && !m.players[i].is_eliminated;
        assert(g.players[i].id == player);
        assert(seat < g.players.len());
        assert(g.players[seat as int].id == player);
        assert(i == seat);
    }
    if alive(m, other) {
        let i = choose|i: int|
            0 <= i < m.players.len() && (#[trigger] m.players[i]).id == other
                && !m.players[i].is_eliminated;
        assert(g.players[i].id == other && !g.players[i].is_eliminated);
    }
    if other != player && alive(g, other) {
        let i = choose|i: int|
            0 <= i < g.players.len() && (#[trigger] g.players[i]).id == other
                && !g.players[i].is_eliminated;
        assert(m.players[i].id == other && !m.players[i].is_eliminated);
    }
    assert forall|p: PlayerId| (#[trigger] m.player(p) is Some) == (g.player(p) is Some) by {
        lemma_same_ids_seat(g, m, p, 0);
    }
}

proof fn lemma_same_ids_seat(a: Game, b: Game, id: PlayerId, from: nat)
    requires
        a.players.len() == b.players.len(),
        forall|i: int|
            0 <= i < a.players.len() ==> (#[trigger] b.players[i]).id == a.players[i].id,
    ensures
        first_seat(a.players, id, from) == first_seat(b.players, id, from),
    decreases a.players.len() - from,
{
    if from < a.players.len() {
        assert(b.players[from as int].id == a.players[from as int].id);
        lemma_same_ids_seat(a, b, id, from + 1);
    }
}

proof fn lemma_entries_without_within(stack: Seq<StackEntry>, id: ObjectId, n: nat)
    requires
        n <= stack.len(),
    ensures
        stack_within(entries_without(stack, id, n), stack),
    decreases n,
{
    if n > 0 {
        lemma_entries_without_within(stack, id, (n - 1) as nat);
        assert(stack.contains(stack[n - 1]));
    }
}

/// Moving permanents off the battlefield leaves no more permanents and no more stack than there
/// were.
pub proof fn lemma_all_moved(p: Play, ids: Seq<ObjectId>, to: Zone, n: nat)
    requires
        to != Zone::Battlefield,
    ensures
        same_besides(p.game, all_moved(p, ids, to, n).game),
        all_moved(p, ids, to, n).game.battlefield.len() <= p.game.battlefield.len(),
        stack_within(all_moved(p, ids, to, n).game.stack, p.game.stack),
        all_moved(p, ids, to, n).events.len() >= p.events.len(),
    decreases n,
{
    if n > 0 {
        lemma_all_moved(p, ids, to, (n - 1) as nat);
        let before = all_moved(p, ids, to, (n - 1) as nat);
        let g = before.game;
        lemma_moved(g, ids[n - 1], to);
        lemma_ids_without(g.battlefield, ids[n - 1], g.battlefield.len());
        lemma_entries_without_within(g.stack, ids[n - 1], g.stack.len());
        let after = all_moved(p, ids, to, n).game;
        assert forall|i: int| 0 <= i < after.stack.len() implies p.game.stack.contains(
            #[trigger] after.stack[i],
        ) by {
            if g.object(ids[n - 1]) is Some && after.stack != g.stack {
                assert(g.stack.contains(after.stack[i]));
                let j = choose|j: int| 0 <= j < g.stack.len() && g.stack[j] == after.stack[i];
                assert(p.game.stack.contains(g.stack[j]));
            } else {
                assert(after.stack[i] == g.stack[i]);
            }
        }
    } else {
        assert forall|i: int| 0 <= i < p.game.stack.len() implies p.game.stack.contains(
            #[trigger] p.game.stack[i],
        ) by {}
    }
}

proof fn lemma_entries_of_others(stack: Seq<StackEntry>, player: PlayerId, n: nat)
    requires
        n <= stack.len(),
    ensures
        stack_within(entries_of_others(stack, player, n), stack),
        forall|i: int|
            0 <= i < entries_of_others(stack, player, n).len() ==> (
            #[trigger] entries_of_others(stack, player, n)[i]).controller != player,
    decreases n,
{
    if n > 0 {
        lemma_entries_of_others(stack, player, (n - 1) as nat);
        assert(stack.contains(stack[n - 1]));
    }
}

/// What becomes of a game as one player leaves: the seats with that player marked as gone, the
/// crown and the initiative passed on, no more permanents than before, and a stack of what others
/// had on it and at most one more entry, for whoever got the initiative.
proof fn lemma_one_gone(p: Play, player: PlayerId)
    ensures
        ({
            let m = marked_gone(p.game, player);
            let r = one_gone(p, player).game;
            &&& same_seats(m, r)
            &&& r.format_config == p.game.format_config
            &&& r.active_player == p.game.active_player
            &&& r.waiting_for == p.game.waiting_for
            &&& r.combat == p.game.combat
            &&& r.battlefield.len() <= p.game.battlefield.len()
            &&& one_gone(p, player).events.len() > p.events.len()
            &&& r.monarch == passed_on(p.game.monarch, m, player)
            &&& r.initiative == passed_on(p.game.initiative, m, player)
            &&& forall|i: int| 0 <= i < r.stack.len() ==> {
                let e = #[trigger] r.stack[i];
                ||| p.game.stack.contains(e) && e.controller != player
                ||| p.game.initiative == Some(player) && r.initiative == Some(e.controller)
            }
        }),
{
    reveal(one_gone);
    let m = marked_gone(p.game, player);
    let g = stack_cleared(m, player);
    let owned = owned_permanents(g, player, g.battlefield.len());
    let exiled = all_moved(Play { game: g, ..p }, owned, Zone::Exile, owned.len());
    lemma_all_moved(Play { game: g, ..p }, owned, Zone::Exile, owned.len());
    lemma_entries_of_others(p.game.stack, player, p.game.stack.len());
    let passive = Play {
        game: Game { auto_pass: exiled.game.auto_pass.remove(player), ..exiled.game },
        ..exiled
    };
    lemma_same_seats(m, passive.game);
    let crowned = monarch_passed(passive, player);
    lemma_same_seats(m, crowned.game);
    assert forall|i: int| 0 <= i < crowned.game.stack.len() implies p.game.stack.contains(
        #[trigger] crowned.game.stack[i],
    ) && crowned.game.stack[i].controller != player by {
        assert(g.stack.contains(exiled.game.stack[i]));
        let j = choose|j: int| 0 <= j < g.stack.len() && g.stack[j] == exiled.game.stack[i];
        assert(p.game.stack.contains(g.stack[j]));
    }
    reveal(pushed);
}

/// What an office becomes as a player leaves: it is passed on where it was that player's.
pub open spec fn passed_on(office: Option<PlayerId>, g: Game, player: PlayerId) -> Option<
    PlayerId,
> {
    if office != Some(player) {
        office
    } else if others_remain(g, player) {
        Some(heir(g, player))
    } else {
        None
    }
}

/// Where someone else remains, whoever takes over an office is alive.
proof fn lemma_heir(g: Game, player: PlayerId)
    requires
        others_remain(g, player),
    ensures
        alive(g, heir(g, player)),
{
    let i = choose|i: int|
        0 <= i < g.players.len() && !(#[trigger] g.players[i]).is_eliminated && g.players[i].id
            != player;
    assert(alive(g, g.players[i].id));
    law_player_after(g, player);
}

/// Whether nobody who has left still holds an office.
pub open spec fn offices_held(g: Game) -> bool {
    &&& g.monarch matches Some(m) ==> alive(g, m)
    &&& g.initiative matches Some(m) ==> alive(g, m)
}

/// Whether the player has nothing on the stack.
pub open spec fn off_the_stack(g: Game, player: PlayerId) -> bool {
    forall|i: int| 0 <= i < g.stack.len() ==> (#[trigger] g.stack[i]).controller != player
}

/// What the departure of one player keeps and brings about.
proof fn lemma_one_gone_keeps(p: Play, player: PlayerId, other: PlayerId)
    ensures
        has_left(p.game, other) ==> has_left(one_gone(p, player).game, other),
        has_left(one_gone(p, player).game, other) && other != player ==> has_left(p.game, other),
        p.game.player(player) is Some ==> has_left(one_gone(p, player).game, player),
        living_count(one_gone(p, player).game) <= living_count(p.game),
        p.game.player(player) is Some && !has_left(p.game, player) ==> living_count(
            one_gone(p, player).game,
        ) < living_count(p.game),
        distinct_seats(p.game) ==> distinct_seats(one_gone(p, player).game),
        distinct_seats(p.game) ==> !alive(one_gone(p, player).game, player),
        !alive(p.game, other) ==> !alive(one_gone(p, player).game, other),
        distinct_seats(p.game) && offices_held(p.game) ==> offices_held(one_gone(p, player).game),
        distinct_seats(p.game) ==> off_the_stack(one_gone(p, player).game, player),
        distinct_seats(p.game) && off_the_stack(p.game, other) && !alive(p.game, other)
            ==> off_the_stack(one_gone(p, player).game, other),
        same_players(one_gone(p, player).game, p.game),
{
    let m = marked_gone(p.game, player);
    let r = one_gone(p, player).game;
    lemma_one_gone(p, player);
    lemma_same_seats(m, r);
    assert forall|q: PlayerId| (#[trigger] r.player(q) is Some) == (p.game.player(q) is Some) by {
        assert(m.player(q) is Some == r.player(q) is Some);
        lemma_marked_stay(p.game, player, q);
        assert(m.player(q) is Some == p.game.player(q) is Some);
    }
    lemma_marked_stay(p.game, player, other);
    lemma_marked_stay(p.game, player, player);
    lemma_marked(p.game, player, p.game.players.len());
    lemma_first_seat(p.game.players, player, 0);
    if p.game.player(player) is Some && !has_left(p.game, player) {
        assert(!p.game.players[p.game.seat(player) as int].is_eliminated);
    }
    if others_remain(m, player) {
        lemma_heir(m, player);
    }
    if distinct_seats(p.game) && offices_held(p.game) {
        if let Some(q) = p.game.monarch {
            lemma_marked_stay(p.game, player, q);
        }
        if let Some(q) = p.game.initiative {
            lemma_marked_stay(p.game, player, q);
        }
    }
    if distinct_seats(p.game) {
        assert forall|i: int| 0 <= i < r.stack.len() implies (#[trigger] r.stack[i]).controller
            != player by {
            if p.game.initiative == Some(player) && r.initiative == Some(r.stack[i].controller) {
                assert(alive(m, heir(m, player)));
            }
        }
        if off_the_stack(p.game, other) && !alive(p.game, other) {
            assert forall|i: int| 0 <= i < r.stack.len() implies (#[trigger] r.stack[i]).controller
                != other by {
                let e = r.stack[i];
                if p.game.stack.contains(e) {
                    let j = choose|j: int| 0 <= j < p.game.stack.len() && p.game.stack[j] == e;
                    assert(p.game.stack[j].controller != other);
                } else {
                    assert(alive(m, heir(m, player)));
                }
            }
        }
    }
}

/// The same of several players, one after the other.
proof fn lemma_several_gone(p: Play, players: Seq<PlayerId>, n: nat, other: PlayerId)
    ensures
        has_left(p.game, other) ==> has_left(several_gone(p, players, n).game, other),
        living_count(several_gone(p, players, n).game) <= living_count(p.game),
        several_gone(p, players, n).game.battlefield.len() <= p.game.battlefield.len(),
        several_gone(p, players, n).events.len() >= p.events.len(),
        several_gone(p, players, n).game.format_config == p.game.format_config,
        several_gone(p, players, n).game.active_player == p.game.active_player,
        several_gone(p, players, n).game.waiting_for == p.game.waiting_for,
        same_players(several_gone(p, players, n).game, p.game),
        distinct_seats(p.game) ==> distinct_seats(several_gone(p, players, n).game),
        !alive(p.game, other) ==> !alive(several_gone(p, players, n).game, other),
        distinct_seats(p.game) && offices_held(p.game) ==> offices_held(
            several_gone(p, players, n).game,
        ),
        distinct_seats(p.game) && off_the_stack(p.game, other) && !alive(p.game, other)
            ==> off_the_stack(several_gone(p, players, n).game, other),
    decreases n,
{
    if n > 0 {
        lemma_several_gone(p, players, (n - 1) as nat, other);
        let before = several_gone(p, players, (n - 1) as nat);
        lemma_one_gone(before, players[n - 1]);
        lemma_one_gone_keeps(before, players[n - 1], other);
    }
}

/// The same of a player and the player's team.
proof fn lemma_team_gone(p: Play, player: PlayerId, other: PlayerId)
    ensures
        ({
            let r = team_gone(p, player).game;
            &&& has_left(p.game, other) ==> has_left(r, other)
            &&& p.game.player(player) is Some ==> has_left(r, player)
            &&& living_count(r) <= living_count(p.game)
            &&& p.game.player(player) is Some && !has_left(p.game, player) ==> living_count(r)
                < living_count(p.game)
            &&& r.battlefield.len() <= p.game.battlefield.len()
            &&& team_gone(p, player).events.len() > p.events.len()
            &&& r.format_config == p.game.format_config
            &&& r.active_player == p.game.active_player
            &&& r.waiting_for == p.game.waiting_for
            &&& same_players(r, p.game)
            &&& distinct_seats(p.game) ==> distinct_seats(r)
            &&& !alive(p.game, other) ==> !alive(r, other)
            &&& distinct_seats(p.game) && offices_held(p.game) ==> offices_held(r)
            &&& distinct_seats(p.game) ==> off_the_stack(r, player)
            &&& distinct_seats(p.game) ==> !alive(r, player)
        }),
{
    let alone = one_gone(p, player);
    lemma_one_gone(p, player);
    lemma_one_gone_keeps(p, player, other);
    if alone.game.format_config.team_based {
        let team = teammates_of(alone.game, player, alone.game.players.len());
        lemma_several_gone(alone, team, team.len(), other);
        lemma_several_gone(alone, team, team.len(), player);
    }
}

/// What comes after the departures moves nothing: the game may end, or wait for someone else.
proof fn lemma_player_gone(p: Play, player: PlayerId)
    requires
        !has_left(p.game, player),
    ensures
        same_besides_waiting(team_gone(p, player).game, player_gone(p, player).game),
        player_gone(p, player).events.len() > p.events.len(),
{
    lemma_team_gone(p, player, player);
}

/// Whether two games differ at most in what they wait for and in their mulligans.
pub open spec fn same_besides_waiting(a: Game, b: Game) -> bool {
    &&& a.players == b.players
    &&& a.battlefield == b.battlefield
    &&& a.objects == b.objects
    &&& a.stack == b.stack
    &&& a.format_config == b.format_config
    &&& a.active_player == b.active_player
    &&& a.monarch == b.monarch
    &&& a.initiative == b.initiative
}

/// A player who has already left cannot leave again: nothing changes and nothing is told.
pub proof fn law_leaves_once(p: Play, player: PlayerId)
    requires
        has_left(p.game, player),
    ensures
        player_gone(p, player) == p,
{
}

/// A player who leaves has left, there are fewer players than before, and it is told.
pub proof fn law_leaving(p: Play, player: PlayerId)
    requires
        p.game.player(player) is Some,
        !has_left(p.game, player),
    ensures
        has_left(player_gone(p, player).game, player),
        living_count(player_gone(p, player).game) < living_count(p.game),
        player_gone(p, player).game.battlefield.len() <= p.game.battlefield.len(),
        player_gone(p, player).events.len() > p.events.len(),
        same_players(player_gone(p, player).game, p.game),
{
    lemma_team_gone(p, player, player);
    lemma_player_gone(p, player);
    lemma_same_seats(team_gone(p, player).game, player_gone(p, player).game);
    let t = team_gone(p, player).game;
    let r = player_gone(p, player).game;
    assert forall|q: PlayerId| (#[trigger] r.player(q) is Some) == (p.game.player(q) is Some) by {
        assert((t.player(q) is Some) == (r.player(q) is Some));
    }
}

/// Nobody comes back: who has left stays gone whoever leaves next.
pub proof fn law_nobody_returns(p: Play, player: PlayerId, other: PlayerId)
    requires
        has_left(p.game, other),
    ensures
        has_left(player_gone(p, player).game, other),
{
    if !has_left(p.game, player) {
        lemma_team_gone(p, player, other);
        lemma_player_gone(p, player);
        lemma_same_seats(team_gone(p, player).game, player_gone(p, player).game);
    }
}

/// Whether a player goes as another leaves: that player, or a teammate where teams are played,
/// who is still in the game.
pub open spec fn goes_along(g: Game, player: PlayerId, q: PlayerId) -> bool {
    &&& g.player(q) is Some
    &&& !has_left(g, q)
    &&& q == player || (g.format_config.team_based && is_teammate(player, q))
}

/// How often it is told that a player has left.
pub open spec fn times_told(events: Seq<GameEvent>, player: PlayerId) -> nat
    decreases events.len(),
{
    if events.len() == 0 {
        0
    } else {
        times_told(events.drop_last(), player) + (if events.last() == (
        GameEvent::PlayerEliminated { player_id: player }) {
            1nat
        } else {
            0nat
        })
    }
}

proof fn lemma_told_more(events: Seq<GameEvent>, event: GameEvent, player: PlayerId)
    ensures
        times_told(events.push(event), player) == times_told(events, player) + (if event == (
        GameEvent::PlayerEliminated { player_id: player }) {
            1nat
        } else {
            0nat
        }),
{
    assert(events.push(event).drop_last() =~= events);
}

proof fn lemma_moves_told(p: Play, ids: Seq<ObjectId>, to: Zone, n: nat, q: PlayerId)
    ensures
        times_told(all_moved(p, ids, to, n).events, q) == times_told(p.events, q),
    decreases n,
{
    if n > 0 {
        lemma_moves_told(p, ids, to, (n - 1) as nat, q);
        let before = all_moved(p, ids, to, (n - 1) as nat);
        let told = move_events(before.game, ids[n - 1], to);
        if told.len() == 0 {
            assert(before.events + told =~= before.events);
        } else {
            assert(before.events + told =~= before.events.push(told[0]));
            lemma_told_more(before.events, told[0], q);
        }
    }
}

/// One departure is told once, and no other is.
proof fn lemma_one_gone_told(p: Play, player: PlayerId, q: PlayerId)
    ensures
        times_told(one_gone(p, player).events, q) == times_told(p.events, q) + (if q == player {
            1nat
        } else {
            0nat
        }),
{
    reveal(one_gone);
    let g = stack_cleared(marked_gone(p.game, player), player);
    let owned = owned_permanents(g, player, g.battlefield.len());
    let exiled = all_moved(Play { game: g, ..p }, owned, Zone::Exile, owned.len());
    lemma_moves_told(Play { game: g, ..p }, owned, Zone::Exile, owned.len(), q);
    let passive = Play {
        game: Game { auto_pass: exiled.game.auto_pass.remove(player), ..exiled.game },
        ..exiled
    };
    assert forall|events: Seq<GameEvent>, event: GameEvent| #[trigger]
        times_told(events.push(event), q) == times_told(events, q) + (if event == (
        GameEvent::PlayerEliminated { player_id: q }) {
            1nat
        } else {
            0nat
        }) by {
        lemma_told_more(events, event, q);
    }
    let crowned = monarch_passed(passive, player);
    assert(times_told(crowned.events, q) == times_told(p.events, q));
    let passed = initiative_passed(crowned, player);
    assert(times_told(passed.events, q) == times_told(crowned.events, q));
}

/// As several players leave, each who was still there leaves once, and nobody else does.
proof fn lemma_several_leave(p: Play, players: Seq<PlayerId>, n: nat, q: PlayerId)
    requires
        n <= players.len(),
        forall|i: int| 0 <= i < players.len() ==> p.game.player(#[trigger] players[i]) is Some,
    ensures
        ({
            let r = several_gone(p, players, n);
            let goes = !has_left(p.game, q) && players.take(n as int).contains(q);
            &&& has_left(r.game, q) <==> has_left(p.game, q) || goes
            &&& times_told(r.events, q) == times_told(p.events, q) + (if goes {
                1nat
            } else {
                0nat
            })
            &&& goes && distinct_seats(p.game) ==> off_the_stack(r.game, q) && !alive(r.game, q)
        }),
    decreases n,
{
    if n > 0 {
        lemma_several_leave(p, players, (n - 1) as nat, q);
        let x = players[n - 1];
        let before = several_gone(p, players, (n - 1) as nat);
        lemma_several_leave(p, players, (n - 1) as nat, x);
        lemma_several_gone(p, players, (n - 1) as nat, q);
        let prior = players.take(n - 1);
        let now = players.take(n as int);
        assert(now =~= prior.push(x));
        assert(now[n - 1] == x);
        assert(now.contains(q) <==> prior.contains(q) || q == x) by {
            if prior.contains(q) {
                let k = choose|k: int| 0 <= k < prior.len() && prior[k] == q;
                assert(now[k] == q);
            }
        }
        assert(p.game.player(players[n - 1]) is Some);
        assert(before.game.player(x) is Some);
        lemma_one_gone_keeps(before, x, q);
        lemma_one_gone_told(before, x, q);
    }
}

proof fn lemma_teammates(g: Game, player: PlayerId, n: nat, q: PlayerId)
    requires
        n <= g.players.len(),
    ensures
        forall|i: int|
            0 <= i < teammates_of(g, player, n).len() ==> g.player(
                #[trigger] teammates_of(g, player, n)[i],
            ) is Some,
        teammates_of(g, player, n).contains(q) <==> is_teammate(player, q) && exists|i: int|
            0 <= i < n && (#[trigger] g.players[i]).id == q,
    decreases n,
{
    if n > 0 {
        lemma_teammates(g, player, (n - 1) as nat, q);
        let before = teammates_of(g, player, (n - 1) as nat);
        let now = teammates_of(g, player, n);
        let x = g.players[n - 1].id;
        lemma_first_seat(g.players, x, 0);
        assert(g.player(x) is Some);
        if before.contains(q) {
            let k = choose|k: int| 0 <= k < before.len() && before[k] == q;
            assert(now[k] == q);
        }
        if now.len() > before.len() {
            assert(now[before.len() as int] == x);
        }
        assert forall|i: int| 0 <= i < now.len() implies g.player(#[trigger] now[i]) is Some by {
            if i < before.len() {
                assert(now[i] == before[i]);
            }
        }
        if now.contains(q) && !before.contains(q) {
            let k = choose|k: int| 0 <= k < now.len() && now[k] == q;
            if k < before.len() {
                assert(before[k] == q);
            }
            assert(g.players[n - 1].id == q);
        }
    }
}

/// Who leaves with a player, what is told of it, and what is left of theirs on the stack.
proof fn lemma_team_leaves(p: Play, player: PlayerId, q: PlayerId)
    requires
        p.game.player(player) is Some,
        !has_left(p.game, player),
    ensures
        ({
            let r = team_gone(p, player);
            let goes = goes_along(p.game, player, q);
            &&& has_left(r.game, q) <==> has_left(p.game, q) || goes
            &&& times_told(r.events, q) == times_told(p.events, q) + (if goes {
                1nat
            } else {
                0nat
            })
            &&& goes && distinct_seats(p.game) ==> off_the_stack(r.game, q)
        }),
{
    let alone = one_gone(p, player);
    lemma_one_gone(p, player);
    lemma_one_gone_keeps(p, player, q);
    lemma_one_gone_told(p, player, q);
    if alone.game.format_config.team_based {
        let n = alone.game.players.len();
        let team = teammates_of(alone.game, player, n);
        lemma_teammates(alone.game, player, n, q);
        lemma_several_leave(alone, team, team.len(), q);
        lemma_several_gone(alone, team, team.len(), q);
        assert(team.take(team.len() as int) =~= team);
        assert(alone.game.player(q) is Some == p.game.player(q) is Some);
        lemma_first_seat(alone.game.players, q, 0);
        if alone.game.player(q) is Some {
            assert(alone.game.players[alone.game.seat(q) as int].id == q);
        }
        assert(alone.game.player(q) is Some <==> exists|i: int|
            0 <= i < n && (#[trigger] alone.game.players[i]).id == q);
    }
}

/// As a player leaves, just that player goes, and where teams are played the teammates who are
/// still there. Each departure is told once, and no other is.
pub proof fn law_who_leaves(p: Play, player: PlayerId, q: PlayerId)
    requires
        p.game.player(player) is Some,
        !has_left(p.game, player),
    ensures
        has_left(player_gone(p, player).game, q) <==> has_left(p.game, q) || goes_along(
            p.game,
            player,
            q,
        ),
        times_told(player_gone(p, player).events, q) == times_told(p.events, q) + (if goes_along(
            p.game,
            player,
            q,
        ) {
            1nat
        } else {
            0nat
        }),
{
    lemma_team_leaves(p, player, q);
    lemma_player_gone(p, player);
    let t = team_gone(p, player);
    lemma_same_seats(t.game, player_gone(p, player).game);
    lemma_told_more(t.events, GameEvent::GameOver { winner: game_winner(t.game) }, q);
}

/// CR 800.4a: a player who leaves, and everyone who goes along, has no spell or ability left on
/// the stack.
pub proof fn law_stack_left(p: Play, player: PlayerId, q: PlayerId)
    requires
        distinct_seats(p.game),
        !has_left(p.game, player),
        q == player || (p.game.player(player) is Some && goes_along(p.game, player, q)),
    ensures
        off_the_stack(player_gone(p, player).game, q),
{
    lemma_team_gone(p, player, player);
    lemma_player_gone(p, player);
    if q != player {
        lemma_team_leaves(p, player, q);
    }
}

/// CR 725.4: the monarch and whoever has the initiative are always in the game.
pub proof fn law_offices_held(p: Play, player: PlayerId)
    requires
        distinct_seats(p.game),
        offices_held(p.game),
    ensures
        offices_held(player_gone(p, player).game),
{
    if !has_left(p.game, player) {
        lemma_team_gone(p, player, player);
        lemma_player_gone(p, player);
        lemma_same_seats(team_gone(p, player).game, player_gone(p, player).game);
    }
}

/// CR 104.2a: once a player has left, a game that was not over is over exactly where at most one
/// player or one team is left, and the first one left has won it.
pub proof fn law_over_when_decided(p: Play, player: PlayerId)
    requires
        !has_left(p.game, player),
        !(p.game.waiting_for is GameOver),
    ensures
        player_gone(p, player).game.waiting_for is GameOver <==> game_decided(
            player_gone(p, player).game,
        ),
        player_gone(p, player).game.waiting_for matches WaitingFor::GameOver { winner }
            ==> winner == game_winner(player_gone(p, player).game),
{
    lemma_team_gone(p, player, player);
    lemma_player_gone(p, player);
    lemma_same_seats(team_gone(p, player).game, player_gone(p, player).game);
}

/// Whether the game waits for a player, alone or among others.
pub open spec fn waits_for(w: WaitingFor, player: PlayerId) -> bool {
    match w {
        WaitingFor::MulliganDecision { pending, .. } => exists|i: int|
            0 <= i < pending@.len() && (#[trigger] pending@[i]).player == player,
        WaitingFor::MulliganBottomCards { pending } => exists|i: int|
            0 <= i < pending@.len() && (#[trigger] pending@[i]).player == player,
        _ => w.actor() == Some(player),
    }
}

proof fn lemma_living_are_alive(g: Game, n: nat)
    requires
        n <= g.players.len(),
    ensures
        forall|i: int| 0 <= i < living(g, n).len() ==> alive(g, #[trigger] living(g, n)[i]),
    decreases n,
{
    if n > 0 {
        lemma_living_are_alive(g, (n - 1) as nat);
        let before = living(g, (n - 1) as nat);
        assert forall|i: int| 0 <= i < living(g, n).len() implies alive(
            g,
            #[trigger] living(g, n)[i],
        ) by {
            if i < before.len() {
                assert(alive(g, before[i]));
            } else {
                assert(g.players[n - 1].id == living(g, n)[i]);
            }
        }
    }
}

proof fn lemma_living_entries(g: Game, entries: List<MulliganEntry>)
    ensures
        forall|i: int|
            0 <= i < living_entries(g, entries).len() ==> alive(
                g,
                (#[trigger] living_entries(g, entries)[i]).player,
            ),
    decreases entries,
{
    if entries.node is Some {
        lemma_living_entries(g, list_rest(entries));
        let rest = living_entries(g, list_rest(entries));
        let all = living_entries(g, entries);
        assert forall|i: int| 0 <= i < all.len() implies alive(g, (#[trigger] all[i]).player) by {
            if all.len() == rest.len() {
                assert(alive(g, rest[i].player));
            } else if i > 0 {
                assert(alive(g, rest[i - 1].player));
            }
        }
    }
}

proof fn lemma_bottom_entries(g: Game, n: nat)
    requires
        n <= g.players.len(),
        forall|p: PlayerId| #[trigger] g.final_mulligan_counts.contains_key(p) ==> alive(g, p),
    ensures
        forall|i: int|
            0 <= i < bottom_entries(g, n).len() ==> alive(
                g,
                (#[trigger] bottom_entries(g, n)[i]).player,
            ),
    decreases n,
{
    if n > 0 {
        lemma_bottom_entries(g, (n - 1) as nat);
        let before = bottom_entries(g, (n - 1) as nat);
        assert forall|i: int| 0 <= i < bottom_entries(g, n).len() implies alive(
            g,
            (#[trigger] bottom_entries(g, n)[i]).player,
        ) by {
            if i < before.len() {
                assert(alive(g, before[i].player));
            } else {
                assert(g.final_mulligan_counts.contains_key(g.players[n - 1].id));
            }
        }
    }
}

/// CR 800.4a: the game never waits for a player who has left.
pub proof fn law_waits_for_the_living(p: Play, player: PlayerId, q: PlayerId)
    requires
        !has_left(p.game, player),
        !(player_gone(p, player).game.waiting_for is GameOver),
        waits_for(player_gone(p, player).game.waiting_for, q),
    ensures
        alive(player_gone(p, player).game, q),
{
    let t = team_gone(p, player).game;
    let left = living(t, t.players.len());
    lemma_living_are_alive(t, t.players.len());
    assert(!game_decided(t));
    assert(alive(t, left[0]));
    let counted = counts_pruned(t);
    let pruned = mulligans_pruned(t);
    lemma_same_seats(t, counted);
    lemma_same_seats(t, pruned);
    lemma_same_seats(t, player_gone(p, player).game);
    lemma_bottom_entries(counted, counted.players.len());
    match t.waiting_for {
        WaitingFor::MulliganDecision { pending, .. } => {
            lemma_living_entries(t, pending);
            lemma_items_of(living_entries(t, pending));
            lemma_items_of(bottom_entries(counted, counted.players.len()));
        },
        WaitingFor::MulliganBottomCards { pending } => {
            lemma_living_entries(t, pending);
            lemma_items_of(living_entries(t, pending));
        },
        _ => {},
    }
    if let Some(actor) = pruned.waiting_for.actor() {
        law_player_after(pruned, actor);
    }
}

/// Whether every permanent is where the battlefield has it.
pub open spec fn well_placed(g: Game) -> bool {
    forall|i: int| 0 <= i < g.battlefield.len() ==> g.on_battlefield(#[trigger] g.battlefield[i])
}

/// Whether one game has no permanents but those of another, and the same owners.
pub open spec fn fewer_permanents(after: Game, before: Game) -> bool {
    &&& forall|id: ObjectId|
        #[trigger] after.battlefield.contains(id) ==> before.battlefield.contains(id)
    &&& forall|id: ObjectId, q: PlayerId|
        #[trigger] is_owned(after, id, q) == is_owned(before, id, q)
}

proof fn lemma_exiled(p: Play, ids: Seq<ObjectId>, n: nat)
    requires
        n <= ids.len(),
        well_placed(p.game),
        forall|k: int| 0 <= k < ids.len() ==> p.game.battlefield.contains(#[trigger] ids[k]),
    ensures
        well_placed(all_moved(p, ids, Zone::Exile, n).game),
        fewer_permanents(all_moved(p, ids, Zone::Exile, n).game, p.game),
        forall|k: int|
            0 <= k < n ==> !all_moved(p, ids, Zone::Exile, n).game.battlefield.contains(
                #[trigger] ids[k],
            ),
        forall|id: ObjectId|
            p.game.battlefield.contains(id) && !ids.take(n as int).contains(id)
                ==> #[trigger] all_moved(p, ids, Zone::Exile, n).game.battlefield.contains(id),
    decreases n,
{
    if n > 0 {
        lemma_exiled(p, ids, (n - 1) as nat);
        let g = all_moved(p, ids, Zone::Exile, (n - 1) as nat).game;
        let r = all_moved(p, ids, Zone::Exile, n).game;
        let id = ids[n - 1];
        lemma_moved(g, id, Zone::Exile);
        lemma_ids_without(g.battlefield, id, g.battlefield.len());
        assert(g.battlefield.take(g.battlefield.len() as int) =~= g.battlefield);
        assert(ids.take(n as int) =~= ids.take(n - 1).push(id));
        assert forall|other: ObjectId| ids.take(n - 1).contains(other) implies ids.take(
            n as int,
        ).contains(other) by {
            let prior = ids.take(n - 1);
            let k = choose|k: int| 0 <= k < prior.len() && prior[k] == other;
            assert(ids.take(n as int)[k] == other);
        }
        assert(ids.take(n as int)[n - 1] == id);
        assert(ids.take(n as int).contains(id));
        assert forall|i: int| 0 <= i < r.battlefield.len() implies r.on_battlefield(
            #[trigger] r.battlefield[i],
        ) by {
            assert(r.battlefield.contains(r.battlefield[i]));
            assert(g.battlefield.contains(r.battlefield[i]));
            let k = choose|k: int| 0 <= k < g.battlefield.len() && g.battlefield[k] == r.battlefield[i];
            assert(g.on_battlefield(g.battlefield[k]));
        }
        if g.battlefield.contains(id) {
            let k = choose|k: int| 0 <= k < g.battlefield.len() && g.battlefield[k] == id;
            assert(g.on_battlefield(g.battlefield[k]));
        }
        assert(!r.battlefield.contains(id));
        assert forall|other: ObjectId, q: PlayerId| #[trigger]
            is_owned(r, other, q) == is_owned(p.game, other, q) by {
            assert(is_owned(g, other, q) == is_owned(p.game, other, q));
        }
        assert forall|other: ObjectId| #[trigger] r.battlefield.contains(other) implies
            p.game.battlefield.contains(other) by {
            assert(g.battlefield.contains(other));
        }
    } else {
        assert forall|id: ObjectId| p.game.battlefield.contains(id) && !ids.take(0).contains(
            id,
        ) implies #[trigger] all_moved(p, ids, Zone::Exile, 0).game.battlefield.contains(id) by {}
    }
}

pub proof fn lemma_owned_found(g: Game, player: PlayerId, n: nat)
    requires
        n <= g.battlefield.len(),
    ensures
        forall|k: int|
            0 <= k < owned_permanents(g, player, n).len() ==> g.battlefield.contains(
                #[trigger] owned_permanents(g, player, n)[k],
            ) && is_owned(g, owned_permanents(g, player, n)[k], player),
        forall|i: int|
            0 <= i < n && is_owned(g, #[trigger] g.battlefield[i], player) ==> owned_permanents(
                g,
                player,
                n,
            ).contains(g.battlefield[i]),
    decreases n,
{
    if n > 0 {
        lemma_owned_found(g, player, (n - 1) as nat);
        let before = owned_permanents(g, player, (n - 1) as nat);
        let after = owned_permanents(g, player, n);
        assert(g.battlefield.contains(g.battlefield[n - 1]));
        assert forall|i: int| 0 <= i < n && is_owned(
            g,
            #[trigger] g.battlefield[i],
            player,
        ) implies after.contains(g.battlefield[i]) by {
            if i < n - 1 {
                assert(before.contains(g.battlefield[i]));
                let k = choose|k: int| 0 <= k < before.len() && before[k] == g.battlefield[i];
                assert(after[k] == g.battlefield[i]);
            } else {
                assert(after[before.len() as int] == g.battlefield[i]);
            }
        }
    }
}

/// As one player leaves, that player's permanents go and no others do.
pub proof fn lemma_one_gone_permanents(p: Play, player: PlayerId)
    requires
        well_placed(p.game),
    ensures
        well_placed(one_gone(p, player).game),
        fewer_permanents(one_gone(p, player).game, p.game),
        forall|id: ObjectId| #[trigger]
            one_gone(p, player).game.battlefield.contains(id) <==> p.game.battlefield.contains(id)
                && !is_owned(p.game, id, player),
{
    reveal(one_gone);
    reveal(pushed);
    let g = stack_cleared(marked_gone(p.game, player), player);
    let owned = owned_permanents(g, player, g.battlefield.len());
    lemma_owned_found(g, player, g.battlefield.len());
    assert(well_placed(g)) by {
        assert forall|i: int| 0 <= i < g.battlefield.len() implies g.on_battlefield(
            #[trigger] g.battlefield[i],
        ) by {
            assert(p.game.on_battlefield(p.game.battlefield[i]));
        }
    }
    let start = Play { game: g, ..p };
    lemma_exiled(start, owned, owned.len());
    let exiled = all_moved(start, owned, Zone::Exile, owned.len()).game;
    let r = one_gone(p, player).game;
    assert(r.battlefield == exiled.battlefield);
    assert(r.objects == exiled.objects);
    assert(owned.take(owned.len() as int) =~= owned);
    assert forall|id: ObjectId, q: PlayerId| #[trigger]
        is_owned(r, id, q) == is_owned(p.game, id, q) by {
        assert(is_owned(exiled, id, q) == is_owned(g, id, q));
    }
    assert forall|id: ObjectId| #[trigger] r.battlefield.contains(id) implies
        p.game.battlefield.contains(id) && !is_owned(p.game, id, player) by {
        assert(exiled.battlefield.contains(id));
        assert(g.battlefield.contains(id));
        if is_owned(p.game, id, player) {
            let k = choose|k: int| 0 <= k < g.battlefield.len() && g.battlefield[k] == id;
            assert(is_owned(g, g.battlefield[k], player));
            assert(owned.contains(id));
            let j = choose|j: int| 0 <= j < owned.len() && owned[j] == id;
            assert(!exiled.battlefield.contains(owned[j]));
        }
    }
    assert forall|id: ObjectId| p.game.battlefield.contains(id) && !is_owned(
        p.game,
        id,
        player,
    ) implies #[trigger] r.battlefield.contains(id) by {
        if owned.contains(id) {
            let j = choose|j: int| 0 <= j < owned.len() && owned[j] == id;
            assert(is_owned(g, owned[j], player));
        }
        assert(exiled.battlefield.contains(id));
    }
    assert forall|i: int| 0 <= i < r.battlefield.len() implies r.on_battlefield(
        #[trigger] r.battlefield[i],
    ) by {
        assert(exiled.on_battlefield(exiled.battlefield[i]));
    }
}

/// Whether a player owns no permanent.
pub open spec fn owns_nothing(g: Game, player: PlayerId) -> bool {
    forall|id: ObjectId| g.battlefield.contains(id) ==> !#[trigger] is_owned(g, id, player)
}

proof fn lemma_several_gone_permanents(p: Play, players: Seq<PlayerId>, n: nat, q: PlayerId)
    requires
        well_placed(p.game),
    ensures
        well_placed(several_gone(p, players, n).game),
        fewer_permanents(several_gone(p, players, n).game, p.game),
        owns_nothing(p.game, q) ==> owns_nothing(several_gone(p, players, n).game, q),
        !has_left(p.game, q) && has_left(several_gone(p, players, n).game, q) ==> owns_nothing(
            several_gone(p, players, n).game,
            q,
        ),
    decreases n,
{
    if n > 0 {
        lemma_several_gone_permanents(p, players, (n - 1) as nat, q);
        let before = several_gone(p, players, (n - 1) as nat);
        lemma_one_gone_permanents(before, players[n - 1]);
        let after = several_gone(p, players, n).game;
        assert forall|id: ObjectId, q: PlayerId| #[trigger]
            is_owned(after, id, q) == is_owned(p.game, id, q) by {
            assert(is_owned(before.game, id, q) == is_owned(p.game, id, q));
        }
        assert forall|id: ObjectId| #[trigger] after.battlefield.contains(id) implies
            p.game.battlefield.contains(id) by {
            assert(before.game.battlefield.contains(id));
        }
        lemma_one_gone_keeps(before, players[n - 1], q);
        assert(owns_nothing(before.game, q) ==> owns_nothing(after, q)) by {
            if owns_nothing(before.game, q) {
                assert forall|id: ObjectId| after.battlefield.contains(id) implies !#[trigger]
                    is_owned(after, id, q) by {
                    assert(before.game.battlefield.contains(id));
                    assert(is_owned(before.game, id, q) == is_owned(after, id, q));
                }
            }
        }
        if !has_left(before.game, q) && has_left(after, q) {
            assert(players[n - 1] == q);
            assert forall|id: ObjectId| after.battlefield.contains(id) implies !#[trigger]
                is_owned(after, id, q) by {
                assert(is_owned(before.game, id, q) == is_owned(after, id, q));
            }
        }
    }
}

/// CR 800.4a: a player who leaves, and everyone who goes along, owns nothing on the battlefield
/// any more, and nothing new comes to it.
pub proof fn law_permanents_left(p: Play, player: PlayerId, q: PlayerId)
    requires
        well_placed(p.game),
        !has_left(p.game, player),
        q == player || (p.game.player(player) is Some && goes_along(p.game, player, q)),
    ensures
        well_placed(player_gone(p, player).game),
        fewer_permanents(player_gone(p, player).game, p.game),
        owns_nothing(player_gone(p, player).game, q),
{
    let alone = one_gone(p, player);
    lemma_one_gone_permanents(p, player);
    let team = teammates_of(alone.game, player, alone.game.players.len());
    lemma_several_gone_permanents(alone, team, team.len(), q);
    lemma_player_gone(p, player);
    let t = team_gone(p, player).game;
    let r = player_gone(p, player).game;
    assert forall|id: ObjectId, owner: PlayerId| #[trigger]
        is_owned(r, id, owner) == is_owned(p.game, id, owner) by {
        assert(is_owned(t, id, owner) == is_owned(alone.game, id, owner));
        assert(is_owned(alone.game, id, owner) == is_owned(p.game, id, owner));
    }
    assert forall|id: ObjectId| #[trigger] r.battlefield.contains(id) implies
        alone.game.battlefield.contains(id) by {
        assert(t.battlefield.contains(id));
    }
    assert forall|i: int| 0 <= i < r.battlefield.len() implies r.on_battlefield(
        #[trigger] r.battlefield[i],
    ) by {
        assert(t.on_battlefield(t.battlefield[i]));
    }
    if q == player {
        assert(owns_nothing(alone.game, q)) by {
            assert forall|id: ObjectId| alone.game.battlefield.contains(id) implies !#[trigger]
                is_owned(alone.game, id, q) by {
                assert(is_owned(alone.game, id, q) == is_owned(p.game, id, q));
            }
        }
    } else {
        lemma_team_leaves(p, player, q);
        lemma_one_gone_keeps(p, player, q);
        lemma_one_gone(p, player);
    }
    assert(owns_nothing(t, q));
    assert forall|id: ObjectId| r.battlefield.contains(id) implies !#[trigger] is_owned(
        r,
        id,
        q,
    ) by {
        assert(is_owned(t, id, q) == is_owned(r, id, q));
    }
}

proof fn lemma_several_gone_combat(p: Play, players: Seq<PlayerId>, n: nat)
    ensures
        several_gone(p, players, n).game.combat == p.game.combat,
    decreases n,
{
    if n > 0 {
        lemma_several_gone_combat(p, players, (n - 1) as nat);
        let before = several_gone(p, players, (n - 1) as nat);
        lemma_one_gone(before, players[n - 1]);
    }
}

/// A player who leaves takes no creature out of the record of the combat.
pub proof fn lemma_combat_stays(p: Play, player: PlayerId)
    ensures
        player_gone(p, player).game.combat == p.game.combat,
{
    let alone = one_gone(p, player);
    lemma_one_gone(p, player);
    let team = teammates_of(alone.game, player, alone.game.players.len());
    lemma_several_gone_combat(alone, team, team.len());
}

} // verus!
