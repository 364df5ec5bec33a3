//! Who loses and what dies as state-based actions are performed (CR 704.5).

use crate::ability::{law_keywords, Keyword};
use crate::elimination::departure_laws::lemma_zones_after;
use crate::elimination::has_left;
use crate::elimination::laws::{law_leaving, law_nobody_returns, same_players};
use crate::ids::{CoreType, ObjectId, PlayerId, Zone};
use crate::object::{GameObject, Player};
use crate::sba::{actions_performed, all_gone, doomed, has_lost, is_doomed, losers};
use crate::state::{lemma_first_seat, Game, Play};
use crate::triggers::up_to_date;
use vstd::prelude::*;

verus! {

/// A player in the game has lost exactly with no life left, with ten poison counters or more, or
/// with twenty-one combat damage or more from one commander (CR 704.5a, 704.5c, 903.10a).
pub proof fn law_lost(g: Game, p: Player)
    ensures
        has_lost(g, p) <==> !p.is_eliminated && (p.life <= 0 || p.poison_counters >= 10 || exists|
            i: int,
        |
            0 <= i < g.commander_damage.len() && (#[trigger] g.commander_damage[i]).player == p.id
                && g.commander_damage[i].damage >= 21),
{
}

/// A permanent that is not phased out dies exactly if it is a creature with no toughness left; or
/// one that is not indestructible and has lethal damage, or any from a source with deathtouch; or
/// a planeswalker with no loyalty (CR 704.5f, 704.5g, 704.5h, 704.5i).
pub proof fn law_dies(o: GameObject)
    ensures
        is_doomed(o) <==> o.zone == Zone::Battlefield && !o.phased_out && ((
        o.card_types.core_types@.contains(CoreType::Planeswalker) && o.loyalty == Some(0u32)) || (
        o.card_types.core_types@.contains(CoreType::Creature) && o.toughness is Some && (
        o.toughness->0 <= 0 || (!o.keywords@.contains(Keyword::Indestructible) && (
        o.damage_marked >= o.toughness->0 || o.dealt_deathtouch_damage))))),
{
    law_keywords(o.keywords);
}

proof fn lemma_found_losers(g: Game, n: nat, q: PlayerId)
    requires
        n <= g.players.len(),
    ensures
        losers(g, n).contains(q) <==> exists|i: int|
            0 <= i < n && (#[trigger] g.players[i]).id == q && has_lost(g, g.players[i]),
    decreases n,
{
    if n > 0 {
        lemma_found_losers(g, (n - 1) as nat, q);
        let before = losers(g, (n - 1) as nat);
        let after = losers(g, n);
        if before.contains(q) {
            let k = choose|k: int| 0 <= k < before.len() && before[k] == q;
            assert(after[k] == q);
            let i = choose|i: int|
                0 <= i < n - 1 && (#[trigger] g.players[i]).id == q && has_lost(g, g.players[i]);
            assert(0 <= i < n && g.players[i].id == q && has_lost(g, g.players[i]));
        }
        if g.players[n - 1].id == q && has_lost(g, g.players[n - 1]) {
            assert(after[before.len() as int] == q);
        }
        if after.contains(q) && !before.contains(q) {
            let k = choose|k: int| 0 <= k < after.len() && after[k] == q;
            if k < before.len() {
                assert(before[k] == q);
            }
            assert(g.players[n - 1].id == q);
        }
    }
}

proof fn lemma_found_doomed(g: Game, n: nat, id: ObjectId)
    requires
        n <= g.battlefield.len(),
    ensures
        doomed(g, n).contains(id) <==> g.battlefield.take(n as int).contains(id)
            && g.objects.contains_key(id) && is_doomed(g.objects[id]),
    decreases n,
{
    if n > 0 {
        lemma_found_doomed(g, (n - 1) as nat, id);
        let before = doomed(g, (n - 1) as nat);
        let after = doomed(g, n);
        let last = g.battlefield[n - 1];
        let prior = g.battlefield.take(n - 1);
        let now = g.battlefield.take(n as int);
        assert(now =~= prior.push(last));
        if before.contains(id) {
            let k = choose|k: int| 0 <= k < before.len() && before[k] == id;
            assert(after[k] == id);
        }
        if prior.contains(id) {
            let k = choose|k: int| 0 <= k < prior.len() && prior[k] == id;
            assert(now[k] == id);
        }
        if last == id {
            assert(now[n - 1] == id);
            if g.objects.contains_key(id) && is_doomed(g.objects[id]) {
                assert(after[before.len() as int] == id);
            }
        }
        if after.contains(id) && !before.contains(id) {
            let k = choose|k: int| 0 <= k < after.len() && after[k] == id;
            if k < before.len() {
                assert(before[k] == id);
            }
            assert(last == id);
        }
        if now.contains(id) && !prior.contains(id) {
            let k = choose|k: int| 0 <= k < now.len() && now[k] == id;
            if k < prior.len() {
                assert(prior[k] == id);
            }
            assert(last == id);
        }
    }
}

proof fn lemma_all_gone_left(p: Play, players: Seq<PlayerId>, n: nat, q: PlayerId)
    requires
        n <= players.len(),
        forall|i: int| 0 <= i < players.len() ==> (#[trigger] p.game.player(players[i])) is Some,
    ensures
        players.take(n as int).contains(q) || has_left(p.game, q) ==> has_left(
            all_gone(p, players, n).game,
            q,
        ),
        same_players(all_gone(p, players, n).game, p.game),
    decreases n,
{
    if n > 0 {
        lemma_all_gone_left(p, players, (n - 1) as nat, q);
        let before = all_gone(p, players, (n - 1) as nat);
        let player = players[n - 1];
        assert(p.game.player(player) is Some);
        assert(before.game.player(player) is Some);
        if !has_left(before.game, player) {
            law_leaving(before, player);
        }
        let prior = players.take(n - 1);
        let now = players.take(n as int);
        assert(now =~= prior.push(player));
        if has_left(before.game, q) {
            law_nobody_returns(before, player, q);
        }
        if now.contains(q) {
            let k = choose|k: int| 0 <= k < now.len() && now[k] == q;
            if k < n - 1 {
                assert(prior[k] == q);
            } else {
                assert(player == q);
            }
        }
    }
}

/// As state-based actions are performed, whoever has lost leaves the game; and where nobody has
/// lost, nobody does (CR 704.5, CR 104.3).
pub proof fn law_losers_leave(p: Play, i: int)
    requires
        0 <= i < up_to_date(p.game).players.len(),
    ensures
        ({
            let now = up_to_date(p.game);
            let lost = losers(now, now.players.len());
            let left = all_gone(Play { game: now, ..p }, lost, lost.len());
            &&& has_lost(now, now.players[i]) ==> has_left(left.game, now.players[i].id)
            &&& (forall|k: int|
                0 <= k < now.players.len() ==> !has_lost(now, #[trigger] now.players[k]))
                ==> left.game == now && left.events == p.events
        }),
{
    let now = up_to_date(p.game);
    let n = now.players.len();
    let lost = losers(now, n);
    let q = now.players[i].id;
    assert forall|k: int| 0 <= k < lost.len() implies (#[trigger] now.player(lost[k])) is Some by {
        assert(lost.contains(lost[k]));
        lemma_found_losers(now, n, lost[k]);
        lemma_first_seat(now.players, lost[k], 0);
    }
    lemma_found_losers(now, n, q);
    lemma_all_gone_left(Play { game: now, ..p }, lost, lost.len(), q);
    assert(lost.take(lost.len() as int) =~= lost);
    if has_lost(now, now.players[i]) {
        assert(lost.contains(q));
    }
    if lost.len() > 0 {
        assert(lost.contains(lost[0]));
        lemma_found_losers(now, n, lost[0]);
    }
}

/// Once the losers are gone, just those permanents that are to die go to the graveyard, and all
/// others stay where they are (CR 704.5f to 704.5i).
pub proof fn law_doomed_die(p: Play, id: ObjectId)
    ensures
        ({
            let now = up_to_date(p.game);
            let lost = losers(now, now.players.len());
            let left = all_gone(Play { game: now, ..p }, lost, lost.len()).game;
            let r = actions_performed(p).game;
            left.objects.contains_key(id) ==> r.objects.contains_key(id) && r.objects[id].zone == (
            if left.battlefield.contains(id) && is_doomed(left.objects[id]) {
                Zone::Graveyard
            } else {
                left.objects[id].zone
            })
        }),
{
    reveal(actions_performed);
    let now = up_to_date(p.game);
    let lost = losers(now, now.players.len());
    let left = all_gone(Play { game: now, ..p }, lost, lost.len());
    let n = left.game.battlefield.len();
    let going = doomed(left.game, n);
    if left.game.objects.contains_key(id) {
        lemma_found_doomed(left.game, n, id);
        lemma_zones_after(left, going, Zone::Graveyard, going.len(), id);
        assert(going.take(going.len() as int) =~= going);
        assert(left.game.battlefield.take(n as int) =~= left.game.battlefield);
    }
}

} // verus!
