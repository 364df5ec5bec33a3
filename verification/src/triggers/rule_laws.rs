//! The triggers of the game itself, those of the Ring, and those of a spell that is being cast.

use crate::ability::{
    AbilityKind, DelayedTiming, Effect, PlayerFilter, QuantityExpr, ResolvedAbility, TargetFilter,
    TypeFilter, TypedFilter,
};
use crate::events::GameEvent;
use crate::ids::{AttackTarget, CoreType, DungeonId, ObjectId, Phase, PlayerId, TargetRef, Zone};
use crate::list::{list_of, list_rest, List};
use crate::state::{lemma_first_seat, Game};
use crate::targeting::effect_targets;
use crate::text::Text;
use crate::triggers::collect::PendingTriggerContext;
use crate::triggers::found_laws::{
    bare_ability, bare_trigger, lemma_found_stacked, lemma_rule_found, newly_stacked, same_facts,
};
use crate::triggers::keyword_laws::{draw_a_card, lemma_goes_on_stack, lemma_never_suppressed};
use crate::triggers::rules::{
    after_speed_triggers, is_source, ring_block_triggers, ring_triggers, ring_triggers_of,
    rule_triggers,
};
use crate::triggers::scan::scanned;
use crate::triggers::{triggers_processed, up_to_date};
use std::rc::Rc;
use vstd::prelude::*;

verus! {

/// A trigger of the game itself.
pub open spec fn game_trigger(
    source_id: ObjectId,
    controller: PlayerId,
    effect: Effect,
    event: GameEvent,
    description: &'static str,
) -> PendingTriggerContext {
    bare_trigger(
        source_id,
        controller,
        None,
        bare_ability(effect, source_id, controller),
        0,
        event,
        Some(Text::Literal(description)),
        None,
    )
}

/// What a phase brings by the rules: a card for the active player at their end step if they are
/// the monarch, a venture into the Undercity at their upkeep if they have the initiative, their
/// rad counters at their precombat main phase if they have any, and otherwise nothing (CR 725.2,
/// CR 728.1).
pub proof fn law_on_phase(g: Game, phase: Phase, seat: int)
    requires
        0 <= seat < g.players.len(),
        forall|i: int| 0 <= i < seat ==> g.players[i].id != g.players[seat].id,
        g.active_player == g.players[seat].id,
    ensures
        ({
            let event = GameEvent::PhaseChanged { phase };
            let active = g.active_player;
            let triggers = rule_triggers(g, event);
            &&& phase == Phase::End && g.monarch == Some(active) ==> triggers == seq![
                game_trigger(
                    ObjectId(0),
                    active,
                    draw_a_card(),
                    event,
                    "Monarch draw (CR 725.2)",
                ),
            ]
            &&& phase == Phase::Upkeep && g.initiative == Some(active) ==> triggers == seq![
                game_trigger(
                    ObjectId(0),
                    active,
                    Effect::VentureInto { dungeon: DungeonId::Undercity },
                    event,
                    "Initiative upkeep venture (CR 725.2)",
                ),
            ]
            &&& phase == Phase::PreCombatMain && g.players[seat].rad_counters > 0 ==> triggers
                == seq![
                game_trigger(
                    ObjectId(0),
                    active,
                    Effect::ProcessRadCounters,
                    event,
                    "Rad counters (CR 728.1)",
                ),
            ]
            &&& !(phase == Phase::End && g.monarch == Some(active)) && !(phase == Phase::Upkeep
                && g.initiative == Some(active)) && !(phase == Phase::PreCombatMain
                && g.players[seat].rad_counters > 0) ==> triggers.len() == 0
        }),
{
    reveal(rule_triggers);
    let event = GameEvent::PhaseChanged { phase };
    lemma_first_seat(g.players, g.active_player, 0);
    lemma_ring_silent(g, event, g.players.len());
    let triggers = rule_triggers(g, event);
    let phases = crate::triggers::rules::phase_triggers(g, event);
    assert(triggers =~= phases);
}

/// The Ring stays silent on events other than attacks, blocks and combat damage.
proof fn lemma_ring_silent(g: Game, event: GameEvent, n: nat)
    requires
        !(event is AttackersDeclared),
        !(event is BlockersDeclared),
        !(event is CombatDamageDealtToPlayer),
    ensures
        ring_triggers(g, event, n) == Seq::<PendingTriggerContext>::empty(),
    decreases n,
{
    if n > 0 {
        lemma_ring_silent(g, event, (n - 1) as nat);
        assert(ring_triggers(g, event, n) =~= Seq::<PendingTriggerContext>::empty());
    }
}

/// What damage brings by the rules: when a creature deals combat damage to another player than
/// its controller, the controller becomes the monarch if that player was it, and takes the
/// initiative if that player had it. Other damage brings nothing (CR 725.2).
pub proof fn law_on_damage(
    g: Game,
    source_id: ObjectId,
    target: TargetRef,
    amount: u32,
    is_combat: bool,
    excess: u32,
)
    ensures
        ({
            let event = GameEvent::DamageDealt { source_id, target, amount, is_combat, excess };
            let attacker = g.objects[source_id].controller;
            let hits = is_combat && g.objects.contains_key(source_id)
                && target is Player && target->Player_0 != attacker;
            rule_triggers(g, event) == (if hits && g.monarch == Some(target->Player_0) {
                seq![
                    game_trigger(
                        source_id,
                        attacker,
                        Effect::BecomeMonarch,
                        event,
                        "Monarch steal (CR 725.2)",
                    ),
                ]
            } else {
                seq![]
            }) + (if hits && g.initiative == Some(target->Player_0) {
                seq![
                    game_trigger(
                        source_id,
                        attacker,
                        Effect::TakeTheInitiative,
                        event,
                        "Initiative steal (CR 725.2)",
                    ),
                ]
            } else {
                seq![]
            })
        }),
{
    reveal(rule_triggers);
    let event = GameEvent::DamageDealt { source_id, target, amount, is_combat, excess };
    lemma_ring_silent(g, event, g.players.len());
    let damage = crate::triggers::rules::damage_triggers(g, event);
    assert(rule_triggers(g, event) =~= damage);
}

/// What a change of life brings by the rules: when a player loses life in another player's turn,
/// and that player has a speed from 1 to 3 whose trigger is not used up this turn, the speed goes
/// up by one, and the trigger is used up. No other change of life brings anything
/// (CR 702.179d).
pub proof fn law_on_life(g: Game, player_id: PlayerId, amount: i32, seat: int)
    requires
        0 <= seat < g.players.len(),
        forall|i: int| 0 <= i < seat ==> g.players[i].id != g.players[seat].id,
        g.active_player == g.players[seat].id,
    ensures
        ({
            let event = GameEvent::LifeChanged { player_id, amount };
            let p = g.players[seat];
            let faster = amount < 0 && player_id != g.active_player && !p.speed_trigger_used
                && p.speed is Some && 1 <= p.speed->0 <= 3;
            &&& faster ==> rule_triggers(g, event) == seq![
                game_trigger(
                    ObjectId(0),
                    g.active_player,
                    Effect::IncreaseSpeed {
                        player_scope: PlayerFilter::Controller,
                        amount: QuantityExpr::Fixed { value: 1 },
                    },
                    event,
                    "Start your engines! (CR 702.179d)",
                ),
            ]
            &&& faster ==> after_speed_triggers(g, event).players[seat].speed_trigger_used
            &&& !faster ==> rule_triggers(g, event).len() == 0 && after_speed_triggers(g, event)
                == g
        }),
{
    reveal(rule_triggers);
    reveal(after_speed_triggers);
    let event = GameEvent::LifeChanged { player_id, amount };
    lemma_first_seat(g.players, g.active_player, 0);
    lemma_ring_silent(g, event, g.players.len());
    let speeds = crate::triggers::rules::speed_triggers(g, event);
    assert(rule_triggers(g, event) =~= speeds);
}

/// The rules themselves trigger on phases, damage, changes of life, attacks, blocks and combat
/// damage to players, and on nothing else.
pub proof fn law_rules_on_nothing_else(g: Game, event: GameEvent)
    requires
        !(event is PhaseChanged),
        !(event is DamageDealt),
        !(event is LifeChanged),
        !(event is AttackersDeclared),
        !(event is BlockersDeclared),
        !(event is CombatDamageDealtToPlayer),
    ensures
        rule_triggers(g, event).len() == 0,
{
    reveal(rule_triggers);
    lemma_ring_silent(g, event, g.players.len());
}

/// Whether an object bears a player's Ring, and the Ring has reached a level.
pub open spec fn bears_ring(g: Game, player: PlayerId, id: ObjectId, level: int) -> bool {
    &&& g.ring_level.contains_key(player) && g.ring_level[player] >= level
    &&& g.ring_bearer.contains_key(player) && g.ring_bearer[player] == Some(id)
    &&& g.objects.contains_key(id)
    &&& g.objects[id].zone == Zone::Battlefield
    &&& g.objects[id].controller == player
    &&& g.objects[id].card_types.core_types@.contains(CoreType::Creature)
}

/// A trigger of a player's Ring.
pub open spec fn of_the_ring(player: PlayerId, ability: ResolvedAbility, event: GameEvent) ->
    PendingTriggerContext {
    bare_trigger(
        ObjectId(0),
        player,
        None,
        ability,
        0,
        event,
        Some(Text::Literal("The Ring (CR 701.54c)")),
        None,
    )
}

/// "Draw a card, then discard a card."
pub open spec fn draw_then_discard(player: PlayerId) -> ResolvedAbility {
    ResolvedAbility {
        sub_ability: Some(
            Rc::new(
                bare_ability(
                    Effect::Discard {
                        count: QuantityExpr::Fixed { value: 1 },
                        target: TargetFilter::Controller,
                    },
                    ObjectId(0),
                    player,
                ),
            ),
        ),
        ..bare_ability(draw_a_card(), ObjectId(0), player)
    }
}

/// "Each opponent loses 3 life."
pub open spec fn opponents_lose_three(player: PlayerId) -> ResolvedAbility {
    ResolvedAbility {
        player_scope: Some(PlayerFilter::Opponent),
        ..bare_ability(
            Effect::LoseLife { amount: QuantityExpr::Fixed { value: 3 }, target: None },
            ObjectId(0),
            player,
        )
    }
}

/// "Its controller sacrifices it at end of combat", of a creature that blocks.
pub open spec fn blocker_sacrificed(
    player: PlayerId,
    blocker: ObjectId,
    blocker_controller: Option<PlayerId>,
) -> ResolvedAbility {
    ResolvedAbility {
        scoped_player: blocker_controller,
        ..bare_ability(
            Effect::CreateDelayedTrigger {
                condition: DelayedTiming::AtNextPhase { phase: Phase::EndCombat },
                kind: AbilityKind::Spell,
                effect: Rc::new(
                    Effect::Sacrifice {
                        target: TargetFilter::And {
                            filters: list_of(
                                seq![
                                    TargetFilter::SpecificObject { id: blocker },
                                    TargetFilter::Typed(
                                        TypedFilter {
                                            type_filters: list_of(seq![TypeFilter::Creature]),
                                            controller: None,
                                            properties: list_of(seq![]),
                                        },
                                    ),
                                ],
                            ),
                        },
                        count: QuantityExpr::Fixed { value: 1 },
                        min_count: 0,
                    },
                ),
                uses_tracked_set: false,
            },
            ObjectId(0),
            player,
        )
    }
}

proof fn lemma_ring_of_player(g: Game, event: GameEvent, n: nat, i: int)
    requires
        0 <= i < n <= g.players.len(),
    ensures
        forall|x: PendingTriggerContext| #[trigger]
            ring_triggers_of(g, g.players[i].id, event).contains(x) ==> ring_triggers(
                g,
                event,
                n,
            ).contains(x),
    decreases n,
{
    let before = ring_triggers(g, event, (n - 1) as nat);
    let own = ring_triggers_of(g, g.players[n - 1].id, event);
    if i < n - 1 {
        lemma_ring_of_player(g, event, (n - 1) as nat, i);
    }
    assert forall|x: PendingTriggerContext| #[trigger]
        ring_triggers_of(g, g.players[i].id, event).contains(x) implies ring_triggers(
        g,
        event,
        n,
    ).contains(x) by {
        if i < n - 1 {
            let k = choose|k: int| 0 <= k < before.len() && before[k] == x;
            assert((before + own)[k] == x);
        } else {
            let k = choose|k: int| 0 <= k < own.len() && own[k] == x;
            assert((before + own)[before.len() + k] == x);
        }
    }
}

proof fn lemma_ring_from_player(g: Game, event: GameEvent, n: nat, k: int) -> (i: int)
    requires
        n <= g.players.len(),
        0 <= k < ring_triggers(g, event, n).len(),
    ensures
        0 <= i < n,
        ring_triggers_of(g, g.players[i].id, event).contains(ring_triggers(g, event, n)[k]),
    decreases n,
{
    let before = ring_triggers(g, event, (n - 1) as nat);
    let own = ring_triggers_of(g, g.players[n - 1].id, event);
    if k < before.len() {
        lemma_ring_from_player(g, event, (n - 1) as nat, k)
    } else {
        assert(own[k - before.len()] == ring_triggers(g, event, n)[k]);
        n - 1
    }
}

/// Whenever a player's Ring-bearer attacks and their Ring is at the second level or further, they
/// draw a card, then discard a card. Nothing else comes of an attack by the rules: each trigger is
/// that of a player whose bearer attacks (CR 701.54c).
pub proof fn law_ring_attack(
    g: Game,
    attacker_ids: List<ObjectId>,
    defending_player: PlayerId,
    attacks: List<(ObjectId, AttackTarget)>,
    i: int,
    bearer: ObjectId,
    k: int,
)
    requires
        0 <= i < g.players.len(),
    ensures
        ({
            let event = GameEvent::AttackersDeclared { attacker_ids, defending_player, attacks };
            let player = g.players[i].id;
            let triggers = rule_triggers(g, event);
            &&& bears_ring(g, player, bearer, 2) && attacker_ids@.contains(bearer)
                ==> triggers.contains(of_the_ring(player, draw_then_discard(player), event))
            &&& 0 <= k < triggers.len() ==> exists|p: PlayerId, b: ObjectId| #[trigger]
                bears_ring(g, p, b, 2) && attacker_ids@.contains(b) && triggers[k] == of_the_ring(
                    p,
                    draw_then_discard(p),
                    event,
                )
        }),
{
    reveal(rule_triggers);
    let event = GameEvent::AttackersDeclared { attacker_ids, defending_player, attacks };
    let player = g.players[i].id;
    let n = g.players.len();
    let triggers = rule_triggers(g, event);
    assert(triggers =~= ring_triggers(g, event, n));
    if bears_ring(g, player, bearer, 2) && attacker_ids@.contains(bearer) {
        let own = ring_triggers_of(g, player, event);
        assert(own[0] == of_the_ring(player, draw_then_discard(player), event));
        lemma_ring_of_player(g, event, n, i);
        assert(own.contains(own[0]));
    }
    if 0 <= k < triggers.len() {
        let j = lemma_ring_from_player(g, event, n, k);
        let p = g.players[j].id;
        let own = ring_triggers_of(g, p, event);
        let b = g.ring_bearer[p]->0;
        assert(own.len() == 1 ==> own[0] == of_the_ring(p, draw_then_discard(p), event));
        assert(bears_ring(g, p, b, 2));
    }
}

proof fn lemma_is_source(amounts: List<(ObjectId, u32)>, id: ObjectId)
    ensures
        is_source(amounts, id) <==> exists|j: int|
            0 <= j < amounts@.len() && (#[trigger] amounts@[j]).0 == id,
    decreases amounts,
{
    if amounts.node is Some {
        let rest = list_rest(amounts);
        lemma_is_source(rest, id);
        let items = amounts@;
        let tail = rest@;
        assert(items[0] == *amounts.node->0.item);
        assert(items.len() == tail.len() + 1);
        assert forall|j: int| 0 < j < items.len() implies #[trigger] items[j] == tail[j - 1] by {}
        if is_source(rest, id) {
            let j = choose|j: int| 0 <= j < tail.len() && (#[trigger] tail[j]).0 == id;
            assert(items[j + 1] == tail[j]);
        }
    }
}

/// Whenever a player's Ring-bearer deals combat damage to a player and their Ring is at the fourth
/// level, each of their opponents loses 3 life. Nothing else comes of such damage by the rules
/// (CR 701.54c).
pub proof fn law_ring_damage(
    g: Game,
    player_id: PlayerId,
    source_amounts: List<(ObjectId, u32)>,
    total_damage: u32,
    i: int,
    bearer: ObjectId,
    k: int,
)
    requires
        0 <= i < g.players.len(),
    ensures
        ({
            let event = GameEvent::CombatDamageDealtToPlayer {
                player_id,
                source_amounts,
                total_damage,
            };
            let player = g.players[i].id;
            let triggers = rule_triggers(g, event);
            &&& bears_ring(g, player, bearer, 4) && (exists|j: int|
                0 <= j < source_amounts@.len() && (#[trigger] source_amounts@[j]).0 == bearer)
                ==> triggers.contains(of_the_ring(player, opponents_lose_three(player), event))
            &&& 0 <= k < triggers.len() ==> exists|p: PlayerId, b: ObjectId| #[trigger]
                bears_ring(g, p, b, 4) && is_source(source_amounts, b) && triggers[k]
                    == of_the_ring(p, opponents_lose_three(p), event)
        }),
{
    reveal(rule_triggers);
    let event = GameEvent::CombatDamageDealtToPlayer { player_id, source_amounts, total_damage };
    let player = g.players[i].id;
    let n = g.players.len();
    let triggers = rule_triggers(g, event);
    lemma_is_source(source_amounts, bearer);
    assert(triggers =~= ring_triggers(g, event, n));
    if bears_ring(g, player, bearer, 4) && is_source(source_amounts, bearer) {
        let own = ring_triggers_of(g, player, event);
        assert(own[0] == of_the_ring(player, opponents_lose_three(player), event));
        lemma_ring_of_player(g, event, n, i);
        assert(own.contains(own[0]));
    }
    if 0 <= k < triggers.len() {
        let j = lemma_ring_from_player(g, event, n, k);
        let p = g.players[j].id;
        let own = ring_triggers_of(g, p, event);
        let b = g.ring_bearer[p]->0;
        assert(own.len() == 1 ==> own[0] == of_the_ring(p, opponents_lose_three(p), event));
        assert(bears_ring(g, p, b, 4));
    }
}

/// A creature's controller, where it is known.
pub open spec fn controller_if_known(g: Game, id: ObjectId) -> Option<PlayerId> {
    if g.objects.contains_key(id) {
        Some(g.objects[id].controller)
    } else {
        None
    }
}

proof fn lemma_ring_blocks(
    g: Game,
    player: PlayerId,
    bearer: ObjectId,
    blocks: List<(ObjectId, ObjectId)>,
    event: GameEvent,
)
    ensures
        ring_block_triggers(g, player, bearer, blocks, event).len() == blocks@.filter(
            |b: (ObjectId, ObjectId)| b.1 == bearer,
        ).len(),
        forall|j: int|
            0 <= j < blocks@.len() && (#[trigger] blocks@[j]).1 == bearer ==> ring_block_triggers(
                g,
                player,
                bearer,
                blocks,
                event,
            ).contains(
                of_the_ring(
                    player,
                    blocker_sacrificed(
                        player,
                        blocks@[j].0,
                        controller_if_known(g, blocks@[j].0),
                    ),
                    event,
                ),
            ),
    decreases blocks,
{
    reveal(Seq::filter);
    let test = |b: (ObjectId, ObjectId)| b.1 == bearer;
    if blocks.node is Some {
        let rest = list_rest(blocks);
        lemma_ring_blocks(g, player, bearer, rest, event);
        let items = blocks@;
        let tail = rest@;
        let there = ring_block_triggers(g, player, bearer, rest, event);
        let all = ring_block_triggers(g, player, bearer, blocks, event);
        assert(items[0] == *blocks.node->0.item);
        assert(items =~= seq![items[0]] + tail);
        Seq::filter_distributes_over_add(seq![items[0]], tail, test);
        reveal_with_fuel(Seq::filter, 2);
        assert(seq![items[0]].drop_last() =~= Seq::<(ObjectId, ObjectId)>::empty());
        assert forall|j: int| 0 <= j < items.len() && (#[trigger] items[j]).1 == bearer implies all.contains(
            of_the_ring(
                player,
                blocker_sacrificed(player, items[j].0, controller_if_known(g, items[j].0)),
                event,
            ),
        ) by {
            let x = of_the_ring(
                player,
                blocker_sacrificed(player, items[j].0, controller_if_known(g, items[j].0)),
                event,
            );
            if j == 0 {
                assert(all[0] == x);
            } else {
                assert(items[j] == tail[j - 1]);
                let k = choose|k: int| 0 <= k < there.len() && there[k] == x;
                if items[0].1 == bearer {
                    assert(all[k + 1] == x);
                } else {
                    assert(all[k] == x);
                }
            }
        }
    }
}

/// Whenever a player's Ring-bearer becomes blocked and their Ring is at the third level or
/// further, each creature that blocks it is to be sacrificed by its controller at end of combat
/// (CR 701.54c).
pub proof fn law_ring_block(
    g: Game,
    assignments: List<(ObjectId, ObjectId)>,
    i: int,
    bearer: ObjectId,
    j: int,
)
    requires
        0 <= i < g.players.len(),
        0 <= j < assignments@.len(),
        assignments@[j].1 == bearer,
        bears_ring(g, g.players[i].id, bearer, 3),
    ensures
        rule_triggers(g, GameEvent::BlockersDeclared { assignments }).contains(
            of_the_ring(
                g.players[i].id,
                blocker_sacrificed(
                    g.players[i].id,
                    assignments@[j].0,
                    controller_if_known(g, assignments@[j].0),
                ),
                GameEvent::BlockersDeclared { assignments },
            ),
        ),
        ring_triggers_of(g, g.players[i].id, GameEvent::BlockersDeclared { assignments }).len()
            == assignments@.filter(|b: (ObjectId, ObjectId)| b.1 == bearer).len(),
{
    reveal(rule_triggers);
    let event = GameEvent::BlockersDeclared { assignments };
    let player = g.players[i].id;
    let n = g.players.len();
    assert(rule_triggers(g, event) =~= ring_triggers(g, event, n));
    lemma_ring_blocks(g, player, bearer, assignments, event);
    lemma_ring_of_player(g, event, n, i);
    let x = of_the_ring(
        player,
        blocker_sacrificed(player, assignments@[j].0, controller_if_known(g, assignments@[j].0)),
        event,
    );
    assert(ring_triggers_of(g, player, event).contains(x));
}

/// Blocks bring nothing by the rules where no block is of a bearer whose Ring is at the third
/// level.
pub proof fn law_ring_unblocked(g: Game, assignments: List<(ObjectId, ObjectId)>)
    requires
        forall|p: PlayerId, j: int|
            0 <= j < assignments@.len() ==> !(#[trigger] bears_ring(
                g,
                p,
                (#[trigger] assignments@[j]).1,
                3,
            )),
    ensures
        rule_triggers(g, GameEvent::BlockersDeclared { assignments }).len() == 0,
{
    reveal(rule_triggers);
    let event = GameEvent::BlockersDeclared { assignments };
    let n = g.players.len();
    let triggers = rule_triggers(g, event);
    assert(triggers =~= ring_triggers(g, event, n));
    if triggers.len() > 0 {
        let i = lemma_ring_from_player(g, event, n, 0);
        let p = g.players[i].id;
        let own = ring_triggers_of(g, p, event);
        let b = g.ring_bearer[p]->0;
        assert(own.len() > 0);
        assert(own == ring_block_triggers(g, p, b, assignments, event));
        lemma_ring_blocks(g, p, b, assignments, event);
        let test = |x: (ObjectId, ObjectId)| x.1 == b;
        assert forall|j: int| 0 <= j < assignments@.len() implies !test(
            #[trigger] assignments@[j],
        ) by {
            assert(!bears_ring(g, p, assignments@[j].1, 3));
        }
        lemma_filter_none(assignments@, test);
    }
}

proof fn lemma_filter_none<T>(items: Seq<T>, test: spec_fn(T) -> bool)
    requires
        forall|i: int| 0 <= i < items.len() ==> !test(#[trigger] items[i]),
    ensures
        items.filter(test).len() == 0,
    decreases items.len(),
{
    reveal(Seq::filter);
    if items.len() > 0 {
        assert(items.last() == items[items.len() - 1]);
        lemma_filter_none(items.drop_last(), test);
    }
}

/// Whether an ability of the game itself has come on the stack, set off by one of the events.
pub open spec fn rule_stacked(
    g: Game,
    events: Seq<GameEvent>,
    e: int,
    source: ObjectId,
    controller: PlayerId,
    effect: Effect,
) -> bool {
    newly_stacked(
        g,
        triggers_processed(g, events),
        source,
        controller,
        bare_ability(effect, source, controller),
        events[e],
    )
}

proof fn lemma_rule_stacked(
    g: Game,
    events: Seq<GameEvent>,
    e: int,
    source: ObjectId,
    controller: PlayerId,
    effect: Effect,
    description: &'static str,
)
    requires
        0 <= e < events.len(),
        !(events[e] is ZoneChanged),
        effect_targets(effect) is None,
        !(effect is Mana),
        forall|h: Game| #[trigger]
            same_facts(up_to_date(g), h) ==> rule_triggers(h, events[e]).contains(
                game_trigger(source, controller, effect, events[e], description),
            ),
        triggers_processed(g, events).pending_trigger is None,
    ensures
        rule_stacked(g, events, e, source, controller, effect),
{
    let current = up_to_date(g);
    let x = game_trigger(source, controller, effect, events[e], description);
    lemma_never_suppressed(scanned(current, events, e as nat).game, events[e]);
    lemma_rule_found(current, events, e, x);
    lemma_goes_on_stack(x);
    lemma_found_stacked(g, events, x);
}

proof fn lemma_same_first(a: Game, b: Game, seat: int)
    requires
        same_facts(a, b),
        0 <= seat < a.players.len(),
        forall|i: int| 0 <= i < seat ==> (#[trigger] a.players[i]).id != a.players[seat].id,
    ensures
        seat < b.players.len(),
        b.players[seat].id == a.players[seat].id,
        b.players[seat].rad_counters == a.players[seat].rad_counters,
        b.active_player == a.active_player,
        b.monarch == a.monarch,
        b.initiative == a.initiative,
        forall|i: int| 0 <= i < seat ==> (#[trigger] b.players[i]).id != b.players[seat].id,
{
    assert forall|i: int| 0 <= i < seat implies (#[trigger] b.players[i]).id
        != b.players[seat].id by {
        assert(a.players[i].id != a.players[seat].id);
        assert(b.players[i].id == a.players[i].id);
    }
}

/// At the beginning of the monarch's end step an ability goes on the stack with which the monarch
/// draws a card; at the upkeep of the player with the initiative, one with which they venture into
/// Undercity; and at the precombat main phase of a player with rad counters, one that sees to them
/// (CR 725.2, CR 728.1).
pub proof fn law_phase_stacked(g: Game, events: Seq<GameEvent>, e: int, phase: Phase, seat: int)
    requires
        0 <= e < events.len(),
        events[e] == (GameEvent::PhaseChanged { phase }),
        0 <= seat < up_to_date(g).players.len(),
        forall|i: int|
            0 <= i < seat ==> (#[trigger] up_to_date(g).players[i]).id != up_to_date(
                g,
            ).players[seat].id,
        up_to_date(g).active_player == up_to_date(g).players[seat].id,
        triggers_processed(g, events).pending_trigger is None,
    ensures
        ({
            let now = up_to_date(g);
            let active = now.players[seat].id;
            let none = ObjectId(0);
            &&& phase == Phase::End && now.monarch == Some(active) ==> rule_stacked(
                g,
                events,
                e,
                none,
                active,
                draw_a_card(),
            )
            &&& phase == Phase::Upkeep && now.initiative == Some(active) ==> rule_stacked(
                g,
                events,
                e,
                none,
                active,
                Effect::VentureInto { dungeon: DungeonId::Undercity },
            )
            &&& phase == Phase::PreCombatMain && now.players[seat].rad_counters > 0 ==> rule_stacked(
                g,
                events,
                e,
                none,
                active,
                Effect::ProcessRadCounters,
            )
        }),
{
    let now = up_to_date(g);
    let active = now.players[seat].id;
    let none = ObjectId(0);
    let event = events[e];
    if phase == Phase::End && now.monarch == Some(active) {
        assert forall|h: Game| #[trigger] same_facts(now, h) implies rule_triggers(
            h,
            event,
        ).contains(
            game_trigger(none, active, draw_a_card(), event, "Monarch draw (CR 725.2)"),
        ) by {
            lemma_same_first(now, h, seat);
            law_on_phase(h, phase, seat);
            assert(rule_triggers(h, event)[0] == game_trigger(
                none,
                active,
                draw_a_card(),
                event,
                "Monarch draw (CR 725.2)",
            ));
        }
        lemma_rule_stacked(g, events, e, none, active, draw_a_card(), "Monarch draw (CR 725.2)");
    }
    if phase == Phase::Upkeep && now.initiative == Some(active) {
        let effect = Effect::VentureInto { dungeon: DungeonId::Undercity };
        assert forall|h: Game| #[trigger] same_facts(now, h) implies rule_triggers(
            h,
            event,
        ).contains(
            game_trigger(none, active, effect, event, "Initiative upkeep venture (CR 725.2)"),
        ) by {
            lemma_same_first(now, h, seat);
            law_on_phase(h, phase, seat);
            assert(rule_triggers(h, event)[0] == game_trigger(
                none,
                active,
                effect,
                event,
                "Initiative upkeep venture (CR 725.2)",
            ));
        }
        lemma_rule_stacked(
            g,
            events,
            e,
            none,
            active,
            effect,
            "Initiative upkeep venture (CR 725.2)",
        );
    }
    if phase == Phase::PreCombatMain && now.players[seat].rad_counters > 0 {
        let effect = Effect::ProcessRadCounters;
        assert forall|h: Game| #[trigger] same_facts(now, h) implies rule_triggers(
            h,
            event,
        ).contains(game_trigger(none, active, effect, event, "Rad counters (CR 728.1)")) by {
            lemma_same_first(now, h, seat);
            law_on_phase(h, phase, seat);
            assert(rule_triggers(h, event)[0] == game_trigger(
                none,
                active,
                effect,
                event,
                "Rad counters (CR 728.1)",
            ));
        }
        lemma_rule_stacked(g, events, e, none, active, effect, "Rad counters (CR 728.1)");
    }
}

/// Combat damage to the monarch, or to the player with the initiative, by a creature of another
/// player puts an ability on the stack with which that player takes it over (CR 725.2).
pub proof fn law_damage_stacked(
    g: Game,
    events: Seq<GameEvent>,
    e: int,
    source: ObjectId,
    player: PlayerId,
    amount: u32,
    excess: u32,
)
    requires
        0 <= e < events.len(),
        events[e] == (GameEvent::DamageDealt {
            source_id: source,
            target: TargetRef::Player(player),
            amount,
            is_combat: true,
            excess,
        }),
        up_to_date(g).objects.contains_key(source),
        up_to_date(g).objects[source].controller != player,
        triggers_processed(g, events).pending_trigger is None,
    ensures
        ({
            let now = up_to_date(g);
            let taker = now.objects[source].controller;
            &&& now.monarch == Some(player) ==> rule_stacked(
                g,
                events,
                e,
                source,
                taker,
                Effect::BecomeMonarch,
            )
            &&& now.initiative == Some(player) ==> rule_stacked(
                g,
                events,
                e,
                source,
                taker,
                Effect::TakeTheInitiative,
            )
        }),
{
    let now = up_to_date(g);
    let taker = now.objects[source].controller;
    let event = events[e];
    let target = TargetRef::Player(player);
    if now.monarch == Some(player) {
        let effect = Effect::BecomeMonarch;
        assert forall|h: Game| #[trigger] same_facts(now, h) implies rule_triggers(
            h,
            event,
        ).contains(game_trigger(source, taker, effect, event, "Monarch steal (CR 725.2)")) by {
            law_on_damage(h, source, target, amount, true, excess);
            assert(rule_triggers(h, event)[0] == game_trigger(
                source,
                taker,
                effect,
                event,
                "Monarch steal (CR 725.2)",
            ));
        }
        lemma_rule_stacked(g, events, e, source, taker, effect, "Monarch steal (CR 725.2)");
    }
    if now.initiative == Some(player) {
        let effect = Effect::TakeTheInitiative;
        assert forall|h: Game| #[trigger] same_facts(now, h) implies rule_triggers(
            h,
            event,
        ).contains(game_trigger(source, taker, effect, event, "Initiative steal (CR 725.2)")) by {
            law_on_damage(h, source, target, amount, true, excess);
            let all = rule_triggers(h, event);
            assert(all[all.len() - 1] == game_trigger(
                source,
                taker,
                effect,
                event,
                "Initiative steal (CR 725.2)",
            ));
        }
        lemma_rule_stacked(g, events, e, source, taker, effect, "Initiative steal (CR 725.2)");
    }
}

} // verus!
