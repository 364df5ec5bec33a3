//! What damage does to players and permanents, and what of its source counts (CR 120).

use crate::ability::{law_keywords, Keyword};
use crate::damage::{
    can_be_dealt, damage_dealt, damage_source, excess_damage, life_changed, permanent_hit,
    player_hit, toxic_value, DamageContext,
};
use crate::events::GameEvent;
use crate::ids::{CoreType, CounterType, ObjectId, PlayerId, TargetRef, Zone};
use crate::list::{List, Node};
use crate::object::{lemma_counter_put, Player};
use crate::state::{lemma_first_seat, DamageRecord, Game, Play};
use std::rc::Rc;
use vstd::prelude::*;

verus! {

/// What of a source counts as it deals damage: its controller, and whether its keywords hold
/// deathtouch, lifelink, wither and infect. A source that is gone has none of them, and is
/// controlled by whoever controlled it last, or by the active player.
pub proof fn law_damage_source(g: Game, id: ObjectId)
    ensures
        ({
            let ctx = damage_source(g, id);
            let o = g.objects[id];
            &&& ctx.source_id == id
            &&& g.objects.contains_key(id) ==> {
                &&& ctx.controller == o.controller
                &&& ctx.has_deathtouch <==> o.keywords@.contains(Keyword::Deathtouch)
                &&& ctx.has_lifelink <==> o.keywords@.contains(Keyword::Lifelink)
                &&& ctx.has_wither <==> o.keywords@.contains(Keyword::Wither)
                &&& ctx.has_infect <==> o.keywords@.contains(Keyword::Infect)
                &&& toxic_value(o.keywords) <= u32::MAX ==> ctx.toxic == toxic_value(o.keywords)
            }
            &&& !g.objects.contains_key(id) ==> {
                &&& !ctx.has_deathtouch && !ctx.has_lifelink && !ctx.has_wither && !ctx.has_infect
                &&& ctx.toxic == 0
                &&& g.lki_cache.contains_key(id) ==> ctx.controller == g.lki_cache[id].controller
                &&& !g.lki_cache.contains_key(id) ==> ctx.controller == g.active_player
            }
        }),
{
    law_keywords(g.objects[id].keywords);
}

/// The toxic value is the sum of the numbers of the toxic keywords (CR 702.164b).
pub proof fn law_toxic(keyword: Keyword, rest: List<Keyword>)
    ensures
        toxic_value(List { node: None }) == 0,
        toxic_value(List { node: Some(Rc::new(Node { item: Rc::new(keyword), rest })) })
            == toxic_value(rest) + (if keyword is Toxic {
            keyword->Toxic_0 as nat
        } else {
            0
        }),
{
}

/// Damage can be dealt only where there is some, to an object on the battlefield or to a player in
/// the game (CR 120.1, CR 120.8).
pub proof fn law_can_be_dealt(g: Game, id: ObjectId, player: PlayerId, amount: u32)
    ensures
        can_be_dealt(g, TargetRef::Object(id), amount) <==> amount > 0 && g.objects.contains_key(
            id,
        ) && g.objects[id].zone == Zone::Battlefield,
        can_be_dealt(g, TargetRef::Player(player), amount) <==> amount > 0 && exists|i: int|
            0 <= i < g.players.len() && (#[trigger] g.players[i]).id == player,
{
    lemma_first_seat(g.players, player, 0);
}

/// Damage is recorded with its source, its target and its amount, and told first of all.
pub proof fn law_damage_recorded(
    p: Play,
    ctx: DamageContext,
    target: TargetRef,
    amount: u32,
    is_combat: bool,
)
    ensures
        ({
            let after = damage_dealt(p, ctx, target, amount, is_combat);
            &&& after.game.damage_dealt_this_turn == p.game.damage_dealt_this_turn.push(
                DamageRecord {
                    source_id: ctx.source_id,
                    source_controller: ctx.controller,
                    target,
                    amount,
                    is_combat,
                },
            )
            &&& after.events.len() > p.events.len()
            &&& p.events.is_prefix_of(after.events)
            &&& after.events[p.events.len() as int] == (GameEvent::DamageDealt {
                source_id: ctx.source_id,
                target,
                amount,
                is_combat,
                excess: excess_damage(p.game, ctx, target, amount),
            })
        }),
{
    reveal(damage_dealt);
    reveal(player_hit);
    reveal(permanent_hit);
    reveal(life_changed);
}

/// How much of some damage is excess: what goes beyond what is lethal to a creature, or beyond
/// the loyalty of something else that has some; damage to a player is never (CR 120.10).
pub proof fn law_excess(g: Game, ctx: DamageContext, id: ObjectId, player: PlayerId, amount: u32)
    ensures
        excess_damage(g, ctx, TargetRef::Player(player), amount) == 0,
        ({
            let o = g.objects[id];
            let excess = excess_damage(g, ctx, TargetRef::Object(id), amount);
            let creature = o.card_types.core_types@.contains(CoreType::Creature);
            &&& g.objects.contains_key(id) && creature && ctx.has_deathtouch && amount > 0
                ==> excess == amount - 1
            &&& g.objects.contains_key(id) && creature && !ctx.has_deathtouch && o.toughness is Some
                && o.toughness->0 >= o.damage_marked && amount + o.damage_marked >= o.toughness->0
                ==> excess == amount + o.damage_marked - o.toughness->0
            &&& g.objects.contains_key(id) && creature && !ctx.has_deathtouch && o.toughness is Some
                && amount + o.damage_marked <= o.toughness->0 ==> excess == 0
            &&& g.objects.contains_key(id) && !creature && o.loyalty is Some && amount
                >= o.loyalty->0 ==> excess == amount - o.loyalty->0
            &&& g.objects.contains_key(id) && !creature && (o.loyalty is None || amount
                <= o.loyalty->0) ==> excess == 0
        }),
{
}

/// Damage to a player costs as much life, which counts as lost this turn, or gives as many poison
/// counters if the source has infect; combat damage from a source with toxic gives poison counters
/// besides. Without lifelink nobody else is touched (CR 120.3a, CR 120.3b, CR 120.3g).
pub proof fn law_damage_to_player(
    p: Play,
    ctx: DamageContext,
    seat: int,
    amount: u32,
    is_combat: bool,
)
    requires
        0 <= seat < p.game.players.len(),
        forall|i: int| 0 <= i < seat ==> p.game.players[i].id != p.game.players[seat].id,
        !ctx.has_lifelink,
        p.game.players[seat].life - amount >= i32::MIN,
        p.game.players[seat].life_lost_this_turn + amount <= u32::MAX,
        p.game.players[seat].poison_counters + amount + ctx.toxic <= u32::MAX,
    ensures
        ({
            let before = p.game.players[seat];
            let game = damage_dealt(
                p,
                ctx,
                TargetRef::Player(before.id),
                amount,
                is_combat,
            ).game;
            let after = game.players[seat];
            let extra: int = if is_combat {
                ctx.toxic as int
            } else {
                0
            };
            &&& ctx.has_infect ==> after.life == before.life && after.life_lost_this_turn
                == before.life_lost_this_turn && after.poison_counters == before.poison_counters
                + amount + extra
            &&& !ctx.has_infect ==> after.life == before.life - amount && (amount > 0
                ==> after.life_lost_this_turn == before.life_lost_this_turn + amount)
                && after.poison_counters == before.poison_counters + extra
            &&& after == (Player {
                life: after.life,
                life_lost_this_turn: after.life_lost_this_turn,
                poison_counters: after.poison_counters,
                ..before
            })
            &&& forall|i: int|
                0 <= i < p.game.players.len() && i != seat ==> #[trigger] game.players[i]
                    == p.game.players[i]
            &&& game == (Game {
                players: game.players,
                damage_dealt_this_turn: game.damage_dealt_this_turn,
                layers_dirty: game.layers_dirty,
                ..p.game
            })
        }),
{
    reveal(damage_dealt);
    reveal(player_hit);
    reveal(life_changed);
    let id = p.game.players[seat].id;
    lemma_first_seat(p.game.players, id, 0);
    let game = damage_dealt(p, ctx, TargetRef::Player(id), amount, is_combat).game;
    lemma_first_seat(game.players, id, 0);
    let told = Game {
        damage_dealt_this_turn: game.damage_dealt_this_turn,
        ..p.game
    };
    assert(told.player(id) == Some(p.game.players[seat]));
    let hurt = if ctx.has_infect {
        crate::damage::poisoned(told, id, amount)
    } else {
        life_changed(Play { game: told, events: p.events }, id, -(amount as int)).game
    };
    lemma_first_seat(hurt.players, id, 0);
    assert(hurt.players[seat].id == id);
    assert forall|i: int| 0 <= i < seat implies hurt.players[i].id != id by {
        assert(hurt.players[i] == p.game.players[i]);
    }
    assert(hurt.player(id) == Some(hurt.players[seat]));
}

/// When a source with lifelink deals damage, its controller gains as much life as well, which
/// counts as gained this turn (CR 120.3f).
pub proof fn law_lifelink(
    p: Play,
    ctx: DamageContext,
    target: TargetRef,
    amount: u32,
    is_combat: bool,
    seat: int,
)
    requires
        ctx.has_lifelink,
        0 <= seat < p.game.players.len(),
        forall|i: int| 0 <= i < seat ==> p.game.players[i].id != p.game.players[seat].id,
        ctx.controller == p.game.players[seat].id,
        target != TargetRef::Player(ctx.controller),
        p.game.players[seat].life + amount <= i32::MAX,
        p.game.players[seat].life_gained_this_turn + amount <= u32::MAX,
        amount > 0,
    ensures
        ({
            let after = damage_dealt(p, ctx, target, amount, is_combat);
            let plain = damage_dealt(
                p,
                DamageContext { has_lifelink: false, ..ctx },
                target,
                amount,
                is_combat,
            );
            &&& after.game.players[seat].life == p.game.players[seat].life + amount
            &&& after.game.players[seat].life_gained_this_turn
                == p.game.players[seat].life_gained_this_turn + amount
            &&& forall|i: int|
                0 <= i < p.game.players.len() && i != seat ==> #[trigger] after.game.players[i]
                    == plain.game.players[i]
            &&& after.game.objects == plain.game.objects
            &&& after.events.len() == plain.events.len() + 1
            &&& after.events.last() is LifeChanged
        }),
{
    reveal(damage_dealt);
    reveal(player_hit);
    reveal(permanent_hit);
    reveal(life_changed);
    let id = ctx.controller;
    let bare = DamageContext { has_lifelink: false, ..ctx };
    let plain = damage_dealt(p, bare, target, amount, is_combat);
    lemma_first_seat(p.game.players, id, 0);
    lemma_seats_kept(p, bare, target, amount, is_combat, seat);
    lemma_first_seat(plain.game.players, id, 0);
    assert(plain.game.player(id) == Some(plain.game.players[seat]));
    assert(damage_dealt(p, ctx, target, amount, is_combat) == life_changed(
        plain,
        id,
        amount as int,
    ));
}

proof fn lemma_seats_kept(
    p: Play,
    ctx: DamageContext,
    target: TargetRef,
    amount: u32,
    is_combat: bool,
    seat: int,
)
    requires
        !ctx.has_lifelink,
        0 <= seat < p.game.players.len(),
        forall|i: int| 0 <= i < seat ==> p.game.players[i].id != p.game.players[seat].id,
        target != TargetRef::Player(p.game.players[seat].id),
    ensures
        ({
            let after = damage_dealt(p, ctx, target, amount, is_combat).game;
            &&& after.players.len() == p.game.players.len()
            &&& after.players[seat] == p.game.players[seat]
            &&& forall|i: int|
                0 <= i < p.game.players.len() ==> (#[trigger] after.players[i]).id
                    == p.game.players[i].id
        }),
{
    reveal(damage_dealt);
    reveal(player_hit);
    reveal(permanent_hit);
    reveal(life_changed);
    if let TargetRef::Player(other) = target {
        lemma_first_seat(p.game.players, other, 0);
        let after = damage_dealt(p, ctx, target, amount, is_combat).game;
        let at = p.game.seat(other) as int;
        let told = Game {
            damage_dealt_this_turn: after.damage_dealt_this_turn,
            ..p.game
        };
        let hurt = if ctx.has_infect {
            crate::damage::poisoned(told, other, amount)
        } else {
            life_changed(Play { game: told, events: p.events }, other, -(amount as int)).game
        };
        lemma_first_seat(hurt.players, other, 0);
    }
}

/// Damage to a permanent: a creature has it marked, or gets as many -1/-1 counters from a source
/// with wither or infect; damage from a source with deathtouch is noted on it; a planeswalker loses
/// as much loyalty, down to none. Nothing else of the permanent, and no other object, changes
/// (CR 120.3c to CR 120.3e, CR 702.2b).
pub proof fn law_damage_to_permanent(
    p: Play,
    ctx: DamageContext,
    id: ObjectId,
    amount: u32,
    is_combat: bool,
)
    requires
        p.game.objects.contains_key(id),
        p.game.objects[id].damage_marked + amount <= u32::MAX,
        p.game.objects[id].counters.count(CounterType::Minus1Minus1) + amount <= u32::MAX,
    ensures
        ({
            let before = p.game.objects[id];
            let game = damage_dealt(p, ctx, TargetRef::Object(id), amount, is_combat).game;
            let after = game.objects[id];
            let creature = before.card_types.core_types@.contains(CoreType::Creature);
            let planeswalker = before.card_types.core_types@.contains(CoreType::Planeswalker);
            let shrinks = creature && (ctx.has_wither || ctx.has_infect);
            &&& creature && !shrinks ==> after.damage_marked == before.damage_marked + amount
            &&& !creature || shrinks ==> after.damage_marked == before.damage_marked
            &&& shrinks ==> after.counters.count(CounterType::Minus1Minus1)
                == before.counters.count(CounterType::Minus1Minus1) + amount
            &&& !shrinks ==> after.counters.count(CounterType::Minus1Minus1)
                == before.counters.count(CounterType::Minus1Minus1)
            &&& after.dealt_deathtouch_damage <==> before.dealt_deathtouch_damage || (creature
                && ctx.has_deathtouch)
            &&& planeswalker && before.loyalty is Some && before.loyalty->0 >= amount
                ==> after.loyalty == Some((before.loyalty->0 - amount) as u32)
                && after.counters.count(CounterType::Loyalty) == before.loyalty->0 - amount
            &&& planeswalker && before.loyalty is Some && before.loyalty->0 < amount
                ==> after.loyalty == Some(0u32) && after.counters.count(CounterType::Loyalty) == 0
            &&& !planeswalker ==> after.loyalty == before.loyalty
            &&& after == (crate::object::GameObject {
                damage_marked: after.damage_marked,
                dealt_deathtouch_damage: after.dealt_deathtouch_damage,
                counters: after.counters,
                loyalty: after.loyalty,
                ..before
            })
            &&& forall|other: ObjectId|
                other != id ==> (#[trigger] game.objects.contains_key(other)
                    <==> p.game.objects.contains_key(other))
            &&& forall|other: ObjectId|
                other != id && p.game.objects.contains_key(other)
                    ==> #[trigger] game.objects[other] == p.game.objects[other]
            &&& !ctx.has_lifelink ==> game.players == p.game.players
        }),
{
    reveal(damage_dealt);
    reveal(permanent_hit);
    reveal(life_changed);
    let before = p.game.objects[id];
    let shrunk = before.counters.put(
        CounterType::Minus1Minus1,
        crate::object::sat_sum(before.counters.count(CounterType::Minus1Minus1), amount),
    );
    let minus = CounterType::Minus1Minus1;
    let loyal = CounterType::Loyalty;
    let sum = crate::object::sat_sum(before.counters.count(minus), amount);
    lemma_counter_put(before.counters.entries, minus, sum, minus);
    lemma_counter_put(before.counters.entries, minus, sum, loyal);
    if before.loyalty is Some {
        let left = crate::damage::loyalty_left(before, amount)->0;
        lemma_counter_put(before.counters.entries, loyal, left, minus);
        lemma_counter_put(before.counters.entries, loyal, left, loyal);
        lemma_counter_put(shrunk.entries, loyal, left, minus);
        lemma_counter_put(shrunk.entries, loyal, left, loyal);
    }
}

} // verus!
