//! The numbers that abilities read off the game.

use crate::ability::{
    AggregateFunction, CastManaObjectScope, CountScope, PlayerScope, QuantityExpr, QuantityRef,
    TargetFilter,
};
use crate::events::GameEvent;
use crate::filter::{cast_matches, object_matches, FilterContext};
use crate::ids::{AttackTarget, ObjectId, PlayerId, TargetRef};
use crate::list::{list_rest, List};
use crate::object::{Player, SpellCastRecord};
use crate::quantity::{
    attacked_player, check_context, count_all_casts, count_casts, count_permanents,
    defending_player, event_player, opponents_stat, quantity, quantity_ref, spells_from, PlayerStat,
};
use crate::state::{lemma_first_seat, Game};
use vstd::prelude::*;

verus! {

/// A fixed number is that number, and a reference is what it refers to.
pub proof fn law_expressions(
    g: Game,
    value: i32,
    qty: QuantityRef,
    controller: PlayerId,
    source: ObjectId,
    event: Option<GameEvent>,
)
    ensures
        quantity(g, QuantityExpr::Fixed { value }, controller, source, event) == value,
        quantity(g, QuantityExpr::Ref { qty }, controller, source, event) == quantity_ref(
            g,
            qty,
            controller,
            source,
            event,
        ),
{
}

/// A life total or a number of discards is that of the controller's seat, and the life above the
/// starting total is what the format does not account for.
pub proof fn law_own_numbers(
    g: Game,
    seat: int,
    source: ObjectId,
    event: Option<GameEvent>,
)
    requires
        0 <= seat < g.players.len(),
        forall|i: int| 0 <= i < seat ==> (#[trigger] g.players[i]).id != g.players[seat].id,
    ensures
        ({
            let p = g.players[seat];
            let own = PlayerScope::Controller;
            &&& quantity_ref(g, QuantityRef::LifeTotal { player: own }, p.id, source, event)
                == p.life
            &&& quantity_ref(
                g,
                QuantityRef::CardsDiscardedThisTurn { player: own },
                p.id,
                source,
                event,
            ) == p.cards_discarded_this_turn
            &&& quantity_ref(g, QuantityRef::LifeAboveStarting, p.id, source, event) == p.life
                - g.format_config.starting_life
        }),
{
    lemma_first_seat(g.players, g.players[seat].id, 0);
}

/// What a player's number is: the life total, or how many cards were discarded this turn.
pub open spec fn number_of(p: Player, stat: PlayerStat) -> int {
    match stat {
        PlayerStat::Life => p.life as int,
        PlayerStat::Discards => p.cards_discarded_this_turn as int,
    }
}

/// The largest and the smallest number of the opponents still in the game are one opponent's, and
/// none has a larger or a smaller one.
pub proof fn law_opponents_extremes(players: Seq<Player>, you: PlayerId, stat: PlayerStat, n: nat)
    requires
        n <= players.len(),
    ensures
        ({
            let most = opponents_stat(players, you, stat, AggregateFunction::Max, n);
            let least = opponents_stat(players, you, stat, AggregateFunction::Min, n);
            &&& most is None <==> forall|i: int|
                0 <= i < n ==> (#[trigger] players[i]).id == you || players[i].is_eliminated
            &&& least is None <==> most is None
            &&& forall|i: int|
                0 <= i < n && (#[trigger] players[i]).id != you && !players[i].is_eliminated
                    ==> least is Some && least->0 <= number_of(players[i], stat) <= most->0
            &&& most is Some ==> exists|i: int|
                0 <= i < n && (#[trigger] players[i]).id != you && !players[i].is_eliminated
                    && number_of(players[i], stat) == most->0
            &&& least is Some ==> exists|i: int|
                0 <= i < n && (#[trigger] players[i]).id != you && !players[i].is_eliminated
                    && number_of(players[i], stat) == least->0
        }),
    decreases n,
{
    if n > 0 {
        law_opponents_extremes(players, you, stat, (n - 1) as nat);
        let most = opponents_stat(players, you, stat, AggregateFunction::Max, (n - 1) as nat);
        let least = opponents_stat(players, you, stat, AggregateFunction::Min, (n - 1) as nat);
        let last = players[n - 1];
        if most is Some {
            let i = choose|i: int|
                0 <= i < n - 1 && (#[trigger] players[i]).id != you && !players[i].is_eliminated
                    && number_of(players[i], stat) == most->0;
            assert(players[i].id != you);
            let j = choose|j: int|
                0 <= j < n - 1 && (#[trigger] players[j]).id != you && !players[j].is_eliminated
                    && number_of(players[j], stat) == least->0;
            assert(players[j].id != you);
        }
        assert(number_of(last, stat) == number_of(players[n - 1], stat));
    }
}

/// The opponents' numbers together: one more opponent still in the game adds that one's number,
/// and one more seat of anyone else adds nothing.
pub proof fn law_opponents_sum(
    players: Seq<Player>,
    you: PlayerId,
    stat: PlayerStat,
    n: nat,
)
    requires
        n < players.len(),
    ensures
        ({
            let before = opponents_stat(players, you, stat, AggregateFunction::Sum, n);
            let after = opponents_stat(players, you, stat, AggregateFunction::Sum, n + 1);
            let p = players[n as int];
            let sum = match before {
                None => 0,
                Some(so_far) => so_far,
            };
            &&& opponents_stat(players, you, stat, AggregateFunction::Sum, 0) is None
            &&& p.id != you && !p.is_eliminated ==> after == Some(sum + number_of(p, stat))
            &&& p.id == you || p.is_eliminated ==> after == before
        }),
{
}

/// Opponents' numbers are taken over all seats; where there is no opponent they come to nothing.
pub proof fn law_opponents(
    g: Game,
    controller: PlayerId,
    aggregate: AggregateFunction,
    source: ObjectId,
    event: Option<GameEvent>,
)
    ensures
        ({
            let scope = PlayerScope::Opponent { aggregate };
            let life = opponents_stat(
                g.players,
                controller,
                PlayerStat::Life,
                aggregate,
                g.players.len(),
            );
            let discards = opponents_stat(
                g.players,
                controller,
                PlayerStat::Discards,
                aggregate,
                g.players.len(),
            );
            &&& quantity_ref(g, QuantityRef::LifeTotal { player: scope }, controller, source, event)
                == (if life is Some {
                life->0
            } else {
                0
            })
            &&& quantity_ref(
                g,
                QuantityRef::CardsDiscardedThisTurn { player: scope },
                controller,
                source,
                event,
            ) == (if discards is Some {
                discards->0
            } else {
                0
            })
        }),
{
}

proof fn lemma_attacked(attacks: List<(ObjectId, AttackTarget)>, attacker: ObjectId)
    ensures
        attacked_player(attacks, attacker) is None <==> forall|i: int|
            0 <= i < attacks@.len() ==> !((#[trigger] attacks@[i]).0 == attacker
                && attacks@[i].1 is Player),
        attacked_player(attacks, attacker) matches Some(p) ==> exists|i: int|
            0 <= i < attacks@.len() && #[trigger] attacks@[i] == (
                attacker,
                AttackTarget::Player(p),
            ),
    decreases attacks,
{
    if attacks.node is Some {
        let rest = list_rest(attacks);
        lemma_attacked(rest, attacker);
        let items = attacks@;
        let tail = rest@;
        assert(items[0] == *attacks.node->0.item);
        assert(items.len() == tail.len() + 1);
        assert forall|j: int| 0 < j < items.len() implies #[trigger] items[j] == tail[j - 1] by {}
        assert forall|j: int| 0 <= j < tail.len() implies #[trigger] tail[j] == items[j + 1] by {}
        if attacked_player(attacks, attacker) is Some && !(items[0].0 == attacker
            && items[0].1 is Player) {
            let p = attacked_player(rest, attacker)->0;
            let j = choose|j: int|
                0 <= j < tail.len() && #[trigger] tail[j] == (attacker, AttackTarget::Player(p));
            assert(items[j + 1] == (attacker, AttackTarget::Player(p)));
        }
        if attacked_player(rest, attacker) is Some {
            let p = attacked_player(rest, attacker)->0;
            let j = choose|j: int|
                0 <= j < tail.len() && #[trigger] tail[j] == (attacker, AttackTarget::Player(p));
            assert(items[j + 1].0 == attacker);
        }
    }
}

/// CR 506.2, CR 508.5: the defending player is the player that the source attacks; where it
/// attacks none, the one whom the attack is declared against.
pub proof fn law_defending_player(
    source: ObjectId,
    attacker_ids: List<ObjectId>,
    defending: PlayerId,
    attacks: List<(ObjectId, AttackTarget)>,
)
    ensures
        ({
            let event = GameEvent::AttackersDeclared {
                attacker_ids,
                defending_player: defending,
                attacks,
            };
            let r = defending_player(source, Some(event));
            &&& r is Some
            &&& (exists|i: int|
                0 <= i < attacks@.len() && #[trigger] attacks@[i] == (
                    source,
                    AttackTarget::Player(r->0),
                )) || (r->0 == defending && forall|i: int|
                0 <= i < attacks@.len() ==> !((#[trigger] attacks@[i]).0 == source
                    && attacks@[i].1 is Player))
        }),
        defending_player(source, None) is None,
{
    lemma_attacked(attacks, source);
}

/// A life total or a number of discards of the defending player is that of the player's seat.
pub proof fn law_defenders_numbers(
    g: Game,
    seat: int,
    controller: PlayerId,
    source: ObjectId,
    event: Option<GameEvent>,
)
    requires
        0 <= seat < g.players.len(),
        forall|i: int| 0 <= i < seat ==> (#[trigger] g.players[i]).id != g.players[seat].id,
    ensures
        ({
            let scope = PlayerScope::DefendingPlayer;
            let life = quantity_ref(
                g,
                QuantityRef::LifeTotal { player: scope },
                controller,
                source,
                event,
            );
            &&& defending_player(source, event) == Some(g.players[seat].id) ==> life
                == g.players[seat].life
            &&& defending_player(source, event) is None ==> life == 0
        }),
{
    lemma_first_seat(g.players, g.players[seat].id, 0);
}

/// The power, the toughness and the mana spent are the source's, or none where it is not known.
pub proof fn law_source_numbers(
    g: Game,
    controller: PlayerId,
    source: ObjectId,
    event: Option<GameEvent>,
)
    ensures
        ({
            let power = quantity_ref(g, QuantityRef::SourcePower, controller, source, event);
            let toughness = quantity_ref(
                g,
                QuantityRef::SourceToughness,
                controller,
                source,
                event,
            );
            let spent = quantity_ref(
                g,
                QuantityRef::ManaSpentToCast { scope: CastManaObjectScope::SelfObject },
                controller,
                source,
                event,
            );
            let o = g.objects[source];
            &&& !g.objects.contains_key(source) ==> power == 0 && toughness == 0 && spent == 0
            &&& g.objects.contains_key(source) ==> {
                &&& o.power is Some ==> power == o.power->0
                &&& o.power is None ==> power == 0
                &&& o.toughness is Some ==> toughness == o.toughness->0
                &&& o.toughness is None ==> toughness == 0
                &&& spent == o.mana_spent_to_cast_amount
            }
        }),
{
}

/// The mana spent on the spell that set an ability off is that of the spell cast.
pub proof fn law_spell_mana(
    g: Game,
    controller: PlayerId,
    source: ObjectId,
    event: GameEvent,
)
    requires
        event is SpellCast,
    ensures
        ({
            let spell = event->SpellCast_object_id;
            quantity_ref(
                g,
                QuantityRef::ManaSpentToCast { scope: CastManaObjectScope::TriggeringSpell },
                controller,
                source,
                Some(event),
            ) == (if g.objects.contains_key(spell) {
                g.objects[spell].mana_spent_to_cast_amount as int
            } else {
                0
            })
        }),
{
}

proof fn lemma_counted(g: Game, filter: TargetFilter, ctx: FilterContext, n: nat)
    requires
        n <= g.battlefield.len(),
    ensures
        count_permanents(g, filter, ctx, n) == g.battlefield.take(n as int).filter(
            |id: ObjectId| object_matches(g, id, filter, ctx),
        ).len(),
    decreases n,
{
    reveal(Seq::filter);
    if n > 0 {
        lemma_counted(g, filter, ctx, (n - 1) as nat);
        assert(g.battlefield.take(n as int).drop_last() =~= g.battlefield.take(n - 1));
    }
}

/// The objects that are counted are the permanents that the filter lets through, as the controller
/// and the source ask.
pub proof fn law_objects_counted(
    g: Game,
    filter: TargetFilter,
    controller: PlayerId,
    source: ObjectId,
)
    ensures
        quantity_ref(g, QuantityRef::ObjectCount { filter }, controller, source, None)
            == g.battlefield.filter(
            |id: ObjectId|
                object_matches(
                    g,
                    id,
                    filter,
                    FilterContext {
                        source_id: source,
                        controller: Some(controller),
                        trigger_object: None,
                    },
                ),
        ).len(),
{
    let ctx = check_context(controller, source, None);
    lemma_counted(g, filter, ctx, g.battlefield.len());
    assert(g.battlefield.take(g.battlefield.len() as int) =~= g.battlefield);
    assert((|id: ObjectId| object_matches(g, id, filter, ctx)) =~= (|id: ObjectId|
        object_matches(
            g,
            id,
            filter,
            FilterContext {
                source_id: source,
                controller: Some(controller),
                trigger_object: None,
            },
        )));
}

proof fn lemma_casts_counted(
    g: Game,
    spells: List<SpellCastRecord>,
    filter: Option<TargetFilter>,
    caster: PlayerId,
)
    ensures
        count_casts(g, spells, filter, caster) == spells@.filter(
            |r: SpellCastRecord| filter is None || cast_matches(g, r, filter->0, caster),
        ).len(),
    decreases spells,
{
    reveal(Seq::filter);
    let keep = |r: SpellCastRecord| filter is None || cast_matches(g, r, filter->0, caster);
    let none = Seq::<SpellCastRecord>::empty();
    assert(none.filter(keep) =~= none);
    if spells.node is Some {
        let rest = list_rest(spells);
        lemma_casts_counted(g, rest, filter, caster);
        let first = *spells.node->0.item;
        assert(spells@ =~= seq![first] + rest@);
        assert(seq![first].drop_last() =~= none);
        Seq::filter_distributes_over_add(seq![first], rest@, keep);
    } else {
        assert(spells@ =~= none);
    }
}

/// The spells that the controller has cast this turn are counted as far as the filter lets them
/// through; a player on whom there is no record has cast none.
pub proof fn law_casts_counted(
    g: Game,
    k: int,
    filter: Option<TargetFilter>,
    source: ObjectId,
    event: Option<GameEvent>,
)
    requires
        0 <= k < g.spells_cast_this_turn_by_player.len(),
        forall|i: int|
            0 <= i < k ==> (#[trigger] g.spells_cast_this_turn_by_player[i]).player
                != g.spells_cast_this_turn_by_player[k].player,
    ensures
        ({
            let h = g.spells_cast_this_turn_by_player[k];
            let counted = h.spells@.filter(
                |r: SpellCastRecord| filter is None || cast_matches(g, r, filter->0, h.player),
            ).len();
            counted <= u32::MAX ==> quantity_ref(
                g,
                QuantityRef::SpellsCastThisTurn { scope: CountScope::Controller, filter },
                h.player,
                source,
                event,
            ) == counted
        }),
{
    let h = g.spells_cast_this_turn_by_player[k];
    lemma_history(g, k, 0);
    lemma_casts_counted(g, h.spells, filter, h.player);
}

proof fn lemma_history(g: Game, k: int, from: nat)
    requires
        from <= k < g.spells_cast_this_turn_by_player.len(),
        forall|i: int|
            from <= i < k ==> (#[trigger] g.spells_cast_this_turn_by_player[i]).player
                != g.spells_cast_this_turn_by_player[k].player,
    ensures
        spells_from(
            g.spells_cast_this_turn_by_player,
            g.spells_cast_this_turn_by_player[k].player,
            from,
        ) == Some(g.spells_cast_this_turn_by_player[k].spells),
    decreases k - from,
{
    if from < k {
        lemma_history(g, k, from + 1);
    }
}

/// The spells that all players have cast this turn are counted player by player.
pub proof fn law_all_casts(
    g: Game,
    filter: Option<TargetFilter>,
    n: nat,
    controller: PlayerId,
    source: ObjectId,
    event: Option<GameEvent>,
)
    requires
        n < g.spells_cast_this_turn_by_player.len(),
    ensures
        quantity_ref(
            g,
            QuantityRef::SpellsCastThisTurn { scope: CountScope::All, filter },
            controller,
            source,
            event,
        ) == count_all_casts(g, filter, g.spells_cast_this_turn_by_player.len()),
        count_all_casts(g, filter, 0) == 0,
        ({
            let h = g.spells_cast_this_turn_by_player[n as int];
            let counted = h.spells@.filter(
                |r: SpellCastRecord| filter is None || cast_matches(g, r, filter->0, h.player),
            ).len();
            counted <= u32::MAX ==> count_all_casts(g, filter, n + 1) == count_all_casts(
                g,
                filter,
                n,
            ) + counted
        }),
{
    let h = g.spells_cast_this_turn_by_player[n as int];
    lemma_casts_counted(g, h.spells, filter, h.player);
}

/// The amount of an event is its damage, its counters or its change of life, whichever way it
/// went; where the event carries none it is what the last effect counted.
pub proof fn law_event_amounts(
    g: Game,
    event: GameEvent,
    controller: PlayerId,
    source: ObjectId,
)
    ensures
        ({
            let amount = quantity_ref(
                g,
                QuantityRef::EventContextAmount,
                controller,
                source,
                Some(event),
            );
            match event {
                GameEvent::DamageDealt { amount: n, .. } => amount == n,
                GameEvent::CombatDamageDealtToPlayer { total_damage, .. } => amount
                    == total_damage,
                GameEvent::DamagePrevented { amount: n, .. } => amount == n,
                GameEvent::CounterAdded { count, .. } => amount == count,
                GameEvent::LifeChanged { amount: n, .. } => amount >= 0 && (amount == n || amount
                    == -n),
                _ => amount == (match g.last_effect_count {
                    None => 0int,
                    Some(n) => n as int,
                }),
            }
        }),
{
}

/// The power of the source of an event is that of the object that the event is about.
pub proof fn law_event_power(g: Game, event: GameEvent, controller: PlayerId, source: ObjectId)
    ensures
        ({
            let power = quantity_ref(
                g,
                QuantityRef::EventContextSourcePower,
                controller,
                source,
                Some(event),
            );
            let about = match event {
                GameEvent::ZoneChanged { object_id, .. } => Some(object_id),
                GameEvent::SpellCast { object_id, .. } => Some(object_id),
                GameEvent::DamageDealt { source_id, .. } => Some(source_id),
                GameEvent::CounterAdded { object_id, .. } => Some(object_id),
                GameEvent::TokenCreated { object_id, .. } => Some(object_id),
                GameEvent::CreatureDestroyed { object_id } => Some(object_id),
                _ => None,
            };
            about is Some ==> power == (if g.objects.contains_key(about->0)
                && g.objects[about->0].power is Some {
                g.objects[about->0].power->0 as int
            } else {
                0
            })
        }),
{
}

/// The player of an event is the one that it happens to, or who does it.
pub proof fn law_event_players(event: GameEvent)
    ensures
        match event {
            GameEvent::SpellCast { controller, .. } => event_player(event) == Some(controller),
            GameEvent::AttackersDeclared { defending_player: p, .. } => event_player(event)
                == Some(p),
            GameEvent::CardDrawn { player_id, .. } => event_player(event) == Some(player_id),
            GameEvent::DamageDealt { target, .. } => match target {
                TargetRef::Player(p) => event_player(event) == Some(p),
                TargetRef::Object(_) => event_player(event) is None,
            },
            GameEvent::CombatDamageDealtToPlayer { player_id, .. } => event_player(event) == Some(
                player_id,
            ),
            GameEvent::LifeChanged { player_id, .. } => event_player(event) == Some(player_id),
            GameEvent::ManaAdded { player_id, .. } => event_player(event) == Some(player_id),
            GameEvent::Discarded { player_id, .. } => event_player(event) == Some(player_id),
            GameEvent::PermanentSacrificed { player_id, .. } => event_player(event) == Some(
                player_id,
            ),
            GameEvent::PhaseChanged { .. } => event_player(event) is None,
            GameEvent::ZoneChanged { .. } => event_player(event) is None,
            _ => true,
        },
{
}

} // verus!
