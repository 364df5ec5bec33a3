//! The triggers that a permanent's keywords bring, and those alone.

use crate::ability::{
    law_keywords, AbilityCost, AbilityKind, DelayedTiming, Effect, Keyword, ManaContribution,
    ManaCost, ManaProduction, MayTriggerOrigin, PtValue, QuantityExpr, ResolvedAbility,
    StaticDefinition, SuppressedTriggerEvent, TargetFilter, TypeFilter, TypedFilter,
    UnlessPayModifier, WardCost,
};
use crate::events::{GameEvent, ZoneChangeRecord};
use crate::ids::{
    AttackTarget, CardId, ControllerRef, CoreType, KeywordKind, ManaColor, ManaExpiry, ObjectId,
    Phase, PlayerId, Zone,
};
use crate::list::{list_of, list_rest, List};
use crate::object::GameObject;
use crate::state::{Game, StackEntry};
use crate::targeting::chain_slots;
use crate::text::Text;
use crate::triggers::collect::{
    permanent_suppresses, statics_suppress, suppressed, suppressible, PendingTriggerContext,
};
use crate::triggers::found_laws::{
    bare_ability, bare_trigger, goes_on_stack, is_permanent, lemma_found_stacked,
    lemma_keyword_found, newly_stacked, same_facts,
};
use crate::triggers::keywords::{
    fire_bent, firebending_number, keyword_triggers, stack_entry_of, ward_payment, ward_triggers_of,
};
use crate::triggers::scan::scanned;
use crate::triggers::{triggers_processed, up_to_date};
use std::rc::Rc;
use vstd::prelude::*;

verus! {

/// The turn by which a permanent's triggers are ordered: the one in which it entered.
pub open spec fn entered_turn(o: GameObject) -> u32 {
    if o.entered_battlefield_turn is Some {
        o.entered_battlefield_turn->0
    } else {
        0
    }
}

/// "This creature gets +1/+1 until end of turn."
pub open spec fn pump_one() -> Effect {
    Effect::Pump {
        power: PtValue::Fixed(1),
        toughness: PtValue::Fixed(1),
        target: TargetFilter::SelfRef,
    }
}

/// On a spell, a permanent's keywords bring prowess alone, once, for a permanent that has it, when
/// its controller casts a spell that is known and whose card types do not say creature; on any
/// other spell they bring nothing (CR 702.108a).
pub proof fn law_on_cast(
    g: Game,
    o: GameObject,
    id: ObjectId,
    card_id: CardId,
    caster: PlayerId,
    spell: ObjectId,
)
    ensures
        ({
            let event = GameEvent::SpellCast { card_id, controller: caster, object_id: spell };
            let prowess = o.keywords@.contains(Keyword::Prowess) && caster == o.controller
                && g.objects.contains_key(spell)
                && !g.objects[spell].card_types.core_types@.contains(CoreType::Creature);
            keyword_triggers(g, o, id, event) == (if prowess {
                seq![
                    bare_trigger(
                        id,
                        o.controller,
                        None,
                        bare_ability(pump_one(), id, o.controller),
                        entered_turn(o),
                        event,
                        Some(Text::Literal("Prowess")),
                        None,
                    ),
                ]
            } else {
                seq![]
            })
        }),
{
    reveal(keyword_triggers);
    law_keywords(o.keywords);
    let event = GameEvent::SpellCast { card_id, controller: caster, object_id: spell };
    let prowess = o.keywords@.contains(Keyword::Prowess) && caster == o.controller
        && g.objects.contains_key(spell)
        && !g.objects[spell].card_types.core_types@.contains(CoreType::Creature);
    let expected = if prowess {
        seq![
            bare_trigger(
                id,
                o.controller,
                None,
                bare_ability(pump_one(), id, o.controller),
                entered_turn(o),
                event,
                Some(Text::Literal("Prowess")),
                None,
            ),
        ]
    } else {
        seq![]
    };
    assert(keyword_triggers(g, o, id, event) =~= expected);
}

/// When a permanent with prowess is on the battlefield as its controller casts a noncreature
/// spell, then once triggers have been processed there is on the stack, put there by that
/// permanent, an ability that gives it +1/+1, unless some trigger is set aside for its controller
/// to decide on (CR 702.108a).
pub proof fn law_prowess(
    g: Game,
    events: Seq<GameEvent>,
    e: int,
    id: ObjectId,
    card_id: CardId,
    spell: ObjectId,
)
    requires
        0 <= e < events.len(),
        is_permanent(up_to_date(g), id),
        up_to_date(g).objects[id].keywords@.contains(Keyword::Prowess),
        events[e] == (GameEvent::SpellCast {
            card_id,
            controller: up_to_date(g).objects[id].controller,
            object_id: spell,
        }),
        up_to_date(g).objects.contains_key(spell),
        !up_to_date(g).objects[spell].card_types.core_types@.contains(CoreType::Creature),
        triggers_processed(g, events).pending_trigger is None,
    ensures
        ({
            let controller = up_to_date(g).objects[id].controller;
            newly_stacked(
                g,
                triggers_processed(g, events),
                id,
                controller,
                bare_ability(
                    Effect::Pump {
                        power: PtValue::Fixed(1),
                        toughness: PtValue::Fixed(1),
                        target: TargetFilter::SelfRef,
                    },
                    id,
                    controller,
                ),
                events[e],
            )
        }),
{
    let current = up_to_date(g);
    let o = current.objects[id];
    let event = events[e];
    let x = bare_trigger(
        id,
        o.controller,
        None,
        bare_ability(pump_one(), id, o.controller),
        entered_turn(o),
        event,
        Some(Text::Literal("Prowess")),
        None,
    );
    lemma_never_suppressed(scanned(current, events, e as nat).game, event);
    assert forall|h: Game| #[trigger] same_facts(current, h) implies keyword_triggers(
        h,
        o,
        id,
        event,
    ).contains(x) by {
        law_on_cast(h, o, id, card_id, o.controller, spell);
        assert(keyword_triggers(h, o, id, event)[0] == x);
    }
    lemma_keyword_found(current, events, e, id, x);
    lemma_goes_on_stack(x);
    lemma_found_stacked(g, events, x);
}

/// Only the arrival or the death of an object can be suppressed.
pub proof fn lemma_never_suppressed(g: Game, event: GameEvent)
    requires
        !(event is ZoneChanged),
    ensures
        !suppressed(g, event),
{
    reveal(suppressed);
}

/// An ability whose effect has no target to choose, and that has no other after it, goes on the
/// stack as it is.
pub proof fn lemma_goes_on_stack(x: PendingTriggerContext)
    requires
        x.pending.modal is None,
        x.pending.ability.sub_ability is None,
        crate::targeting::effect_targets(*x.pending.ability.effect) is None,
        !(*x.pending.ability.effect is Mana && x.pending.trigger_event is Some
            && x.pending.trigger_event->0 is ManaAdded),
    ensures
        goes_on_stack(x.pending),
{
    assert forall|g: Game| #[trigger] chain_slots(g, x.pending.ability, false) == Some(
        Seq::<crate::targeting::TargetSlot>::empty(),
    ) by {
        assert(Seq::<crate::targeting::TargetSlot>::empty() + Seq::<
            crate::targeting::TargetSlot,
        >::empty() =~= Seq::<crate::targeting::TargetSlot>::empty());
    }
}

/// "Draw a card."
pub open spec fn draw_a_card() -> Effect {
    Effect::Draw { count: QuantityExpr::Fixed { value: 1 }, target: TargetFilter::Controller }
}

/// "Exploit a creature you control."
pub open spec fn exploit_yours() -> Effect {
    Effect::Exploit {
        target: TargetFilter::Typed(
            TypedFilter {
                type_filters: list_of(seq![TypeFilter::Creature]),
                controller: Some(ControllerRef::You),
                properties: list_of(seq![]),
            },
        ),
    }
}

/// The ability that exploit brings: its controller may do it.
pub open spec fn exploit_ability(id: ObjectId, controller: PlayerId) -> ResolvedAbility {
    ResolvedAbility { optional: true, ..bare_ability(exploit_yours(), id, controller) }
}

/// When an object moves, a permanent's keywords bring something only if the permanent itself has
/// entered the battlefield: with ravenous a card, if X was 5 or more, and with exploit the choice
/// to exploit a creature (CR 702.156a, CR 702.110a).
pub proof fn law_on_arrival(
    g: Game,
    o: GameObject,
    id: ObjectId,
    moved: ObjectId,
    from: Option<Zone>,
    to: Zone,
    record: Rc<ZoneChangeRecord>,
)
    ensures
        ({
            let event = GameEvent::ZoneChanged { object_id: moved, from, to, record };
            let arrived = moved == id && to == Zone::Battlefield;
            keyword_triggers(g, o, id, event) == (if arrived && o.keywords@.contains(
                Keyword::Ravenous,
            ) && o.cost_x_paid is Some && o.cost_x_paid->0 >= 5 {
                seq![
                    bare_trigger(
                        id,
                        o.controller,
                        None,
                        bare_ability(draw_a_card(), id, o.controller),
                        entered_turn(o),
                        event,
                        Some(Text::Literal("Ravenous")),
                        None,
                    ),
                ]
            } else {
                seq![]
            }) + (if arrived && o.keywords@.contains(Keyword::Exploit) {
                seq![
                    bare_trigger(
                        id,
                        o.controller,
                        None,
                        exploit_ability(id, o.controller),
                        entered_turn(o),
                        event,
                        None,
                        Some(MayTriggerOrigin::Keyword { keyword: KeywordKind::Exploit }),
                    ),
                ]
            } else {
                seq![]
            })
        }),
{
    reveal(keyword_triggers);
    law_keywords(o.keywords);
    let event = GameEvent::ZoneChanged { object_id: moved, from, to, record };
    let arrived = moved == id && to == Zone::Battlefield;
    let first = if arrived && o.keywords@.contains(Keyword::Ravenous) && o.cost_x_paid is Some
        && o.cost_x_paid->0 >= 5 {
        seq![
            bare_trigger(
                id,
                o.controller,
                None,
                bare_ability(draw_a_card(), id, o.controller),
                entered_turn(o),
                event,
                Some(Text::Literal("Ravenous")),
                None,
            ),
        ]
    } else {
        seq![]
    };
    let second = if arrived && o.keywords@.contains(Keyword::Exploit) {
        seq![
            bare_trigger(
                id,
                o.controller,
                None,
                exploit_ability(id, o.controller),
                entered_turn(o),
                event,
                None,
                Some(MayTriggerOrigin::Keyword { keyword: KeywordKind::Exploit }),
            ),
        ]
    } else {
        seq![]
    };
    assert(keyword_triggers(g, o, id, event) =~= first + second);
}

/// Whether no permanent has a static ability by which triggers are suppressed.
pub open spec fn nothing_suppresses(g: Game) -> bool {
    forall|i: int, k: int|
        0 <= i < g.battlefield.len() && g.objects.contains_key(#[trigger] g.battlefield[i]) && 0
            <= k < g.objects[g.battlefield[i]].static_definitions@.len() ==> !((
        #[trigger] g.objects[g.battlefield[i]].static_definitions@[k]).mode is SuppressTriggers)
}

proof fn lemma_statics_do_not_suppress(
    g: Game,
    o: GameObject,
    defs: List<StaticDefinition>,
    record: ZoneChangeRecord,
    kind: SuppressedTriggerEvent,
)
    requires
        forall|k: int| 0 <= k < defs@.len() ==> !((#[trigger] defs@[k]).mode is SuppressTriggers),
    ensures
        !statics_suppress(g, o, defs, record, kind),
    decreases defs,
{
    if defs.node is Some {
        let rest = list_rest(defs);
        assert(defs@[0] == *defs.node->0.item);
        assert forall|k: int| 0 <= k < rest@.len() implies !((
        #[trigger] rest@[k]).mode is SuppressTriggers) by {
            assert(defs@[k + 1] == rest@[k]);
        }
        lemma_statics_do_not_suppress(g, o, rest, record, kind);
    }
}

proof fn lemma_not_suppressed(g: Game, event: GameEvent)
    requires
        nothing_suppresses(g),
    ensures
        !suppressed(g, event),
{
    reveal(suppressed);
    if suppressible(event) is Some {
        let found = suppressible(event)->0;
        assert forall|i: int| 0 <= i < g.battlefield.len() implies !permanent_suppresses(
            g,
            #[trigger] g.battlefield[i],
            found.0,
            found.1,
        ) by {
            let id = g.battlefield[i];
            if g.objects.contains_key(id) {
                let o = g.objects[id];
                assert forall|k: int| 0 <= k < o.static_definitions@.len() implies !((
                #[trigger] o.static_definitions@[k]).mode is SuppressTriggers) by {
                    assert(g.objects[g.battlefield[i]].static_definitions@[k]
                        == o.static_definitions@[k]);
                }
                lemma_statics_do_not_suppress(g, o, o.static_definitions, found.0, found.1);
            }
        }
    }
}

/// When a permanent with ravenous has entered the battlefield for an X of 5 or more, and when one
/// with exploit has, then once triggers have been processed the ability is on the stack, unless
/// arrivals are suppressed or some trigger is set aside (CR 702.156a, CR 702.110a).
pub proof fn law_ravenous_and_exploit(
    g: Game,
    events: Seq<GameEvent>,
    e: int,
    id: ObjectId,
    from: Option<Zone>,
    record: Rc<ZoneChangeRecord>,
)
    requires
        0 <= e < events.len(),
        is_permanent(up_to_date(g), id),
        nothing_suppresses(up_to_date(g)),
        events[e] == (GameEvent::ZoneChanged {
            object_id: id,
            from,
            to: Zone::Battlefield,
            record,
        }),
        triggers_processed(g, events).pending_trigger is None,
    ensures
        ({
            let o = up_to_date(g).objects[id];
            &&& o.keywords@.contains(Keyword::Ravenous) && o.cost_x_paid is Some
                && o.cost_x_paid->0 >= 5 ==> newly_stacked(
                g,
                triggers_processed(g, events),
                id,
                o.controller,
                bare_ability(draw_a_card(), id, o.controller),
                events[e],
            )
            &&& o.keywords@.contains(Keyword::Exploit) ==> newly_stacked(
                g,
                triggers_processed(g, events),
                id,
                o.controller,
                (ResolvedAbility {
                    may_trigger_origin: Some(
                        MayTriggerOrigin::Keyword { keyword: KeywordKind::Exploit },
                    ),
                    ..exploit_ability(id, o.controller)
                }),
                events[e],
            )
        }),
{
    let current = up_to_date(g);
    let o = current.objects[id];
    let event = events[e];
    let p = scanned(current, events, e as nat);
    crate::triggers::found_laws::lemma_scanned_same_facts(current, events, e as nat);
    lemma_not_suppressed(p.game, event);
    let x = bare_trigger(
        id,
        o.controller,
        None,
        bare_ability(draw_a_card(), id, o.controller),
        entered_turn(o),
        event,
        Some(Text::Literal("Ravenous")),
        None,
    );
    let y = bare_trigger(
        id,
        o.controller,
        None,
        exploit_ability(id, o.controller),
        entered_turn(o),
        event,
        None,
        Some(MayTriggerOrigin::Keyword { keyword: KeywordKind::Exploit }),
    );
    let ravenous = o.keywords@.contains(Keyword::Ravenous) && o.cost_x_paid is Some
        && o.cost_x_paid->0 >= 5;
    if ravenous {
        assert forall|h: Game| #[trigger] same_facts(current, h) implies keyword_triggers(
            h,
            o,
            id,
            event,
        ).contains(x) by {
            law_on_arrival(h, o, id, id, from, Zone::Battlefield, record);
            assert(keyword_triggers(h, o, id, event)[0] == x);
        }
        lemma_keyword_found(current, events, e, id, x);
        lemma_goes_on_stack(x);
        lemma_found_stacked(g, events, x);
    }
    if o.keywords@.contains(Keyword::Exploit) {
        assert forall|h: Game| #[trigger] same_facts(current, h) implies keyword_triggers(
            h,
            o,
            id,
            event,
        ).contains(y) by {
            law_on_arrival(h, o, id, id, from, Zone::Battlefield, record);
            let all = keyword_triggers(h, o, id, event);
            assert(all[all.len() - 1] == y);
        }
        lemma_keyword_found(current, events, e, id, y);
        lemma_goes_on_stack(y);
        lemma_found_stacked(g, events, y);
    }
}

/// "Add that much red mana. You don't lose it until end of combat."
pub open spec fn red_until_end_of_combat(n: u32) -> Effect {
    Effect::Mana {
        produced: ManaProduction::Fixed {
            colors: list_of(Seq::new(n as nat, |i: int| ManaColor::Red)),
            contribution: ManaContribution::Base,
        },
        expiry: Some(ManaExpiry::EndOfCombat),
        target: None,
    }
}

/// "At end of combat, sacrifice it."
pub open spec fn sacrifice_at_end_of_combat() -> Effect {
    Effect::CreateDelayedTrigger {
        condition: DelayedTiming::AtNextPhase { phase: Phase::EndCombat },
        kind: AbilityKind::Spell,
        effect: Rc::new(
            Effect::Sacrifice {
                target: TargetFilter::SelfRef,
                count: QuantityExpr::Fixed { value: 1 },
                min_count: 0,
            },
        ),
        uses_tracked_set: false,
    }
}

proof fn lemma_firebending(keywords: List<Keyword>, at: int)
    requires
        0 <= at <= keywords@.len(),
        forall|i: int| 0 <= i < at ==> !(#[trigger] keywords@[i] is Firebending),
        at < keywords@.len() ==> keywords@[at] is Firebending,
    ensures
        firebending_number(keywords) == (if at < keywords@.len() {
            Some(keywords@[at]->Firebending_0)
        } else {
            None
        }),
    decreases keywords,
{
    if keywords.node is Some {
        let rest = list_rest(keywords);
        assert(keywords@[0] == *keywords.node->0.item);
        assert forall|i: int| 0 <= i < rest@.len() implies #[trigger] rest@[i] == keywords@[i + 1] by {}
        if at > 0 {
            assert forall|i: int| 0 <= i < at - 1 implies !(#[trigger] rest@[i] is Firebending) by {
                assert(rest@[i] == keywords@[i + 1]);
            }
            lemma_firebending(rest, at - 1);
        }
    }
}

/// When attackers are declared, a permanent's keywords bring something only if it is among them:
/// with firebending as much red mana as its first firebending says, where that is any, and with
/// decayed its sacrifice at end of combat (CR 702.147a).
pub proof fn law_on_attack(
    g: Game,
    o: GameObject,
    id: ObjectId,
    attacker_ids: List<ObjectId>,
    defending_player: PlayerId,
    attacks: List<(ObjectId, AttackTarget)>,
    at: int,
)
    requires
        0 <= at <= o.keywords@.len(),
        forall|i: int| 0 <= i < at ==> !(#[trigger] o.keywords@[i] is Firebending),
        at < o.keywords@.len() ==> o.keywords@[at] is Firebending,
    ensures
        ({
            let event = GameEvent::AttackersDeclared { attacker_ids, defending_player, attacks };
            let attacks_now = attacker_ids@.contains(id);
            let number = o.keywords@[at]->Firebending_0;
            keyword_triggers(g, o, id, event) == (if attacks_now && at < o.keywords@.len() && number
                > 0 {
                seq![
                    bare_trigger(
                        id,
                        o.controller,
                        None,
                        bare_ability(red_until_end_of_combat(number), id, o.controller),
                        entered_turn(o),
                        event,
                        Some(Text::Numbered("Firebending", number)),
                        None,
                    ),
                ]
            } else {
                seq![]
            }) + (if attacks_now && o.keywords@.contains(Keyword::Decayed) {
                seq![
                    bare_trigger(
                        id,
                        o.controller,
                        None,
                        bare_ability(sacrifice_at_end_of_combat(), id, o.controller),
                        entered_turn(o),
                        event,
                        Some(Text::Literal("Decayed")),
                        None,
                    ),
                ]
            } else {
                seq![]
            })
        }),
{
    reveal(keyword_triggers);
    law_keywords(o.keywords);
    lemma_firebending(o.keywords, at);
    let event = GameEvent::AttackersDeclared { attacker_ids, defending_player, attacks };
    let attacks_now = attacker_ids@.contains(id);
    let number = o.keywords@[at]->Firebending_0;
    let first = if attacks_now && at < o.keywords@.len() && number > 0 {
        seq![
            bare_trigger(
                id,
                o.controller,
                None,
                bare_ability(red_until_end_of_combat(number), id, o.controller),
                entered_turn(o),
                event,
                Some(Text::Numbered("Firebending", number)),
                None,
            ),
        ]
    } else {
        seq![]
    };
    let second = if attacks_now && o.keywords@.contains(Keyword::Decayed) {
        seq![
            bare_trigger(
                id,
                o.controller,
                None,
                bare_ability(sacrifice_at_end_of_combat(), id, o.controller),
                entered_turn(o),
                event,
                Some(Text::Literal("Decayed")),
                None,
            ),
        ]
    } else {
        seq![]
    };
    assert(keyword_triggers(g, o, id, event) =~= first + second);
}

/// When a permanent with firebending or decayed attacks, then once triggers have been processed
/// the ability is on the stack, unless some trigger is set aside (CR 702.147a).
pub proof fn law_firebending_and_decayed(
    g: Game,
    events: Seq<GameEvent>,
    e: int,
    id: ObjectId,
    attacker_ids: List<ObjectId>,
    defending_player: PlayerId,
    attacks: List<(ObjectId, AttackTarget)>,
    at: int,
)
    requires
        0 <= e < events.len(),
        is_permanent(up_to_date(g), id),
        attacker_ids@.contains(id),
        events[e] == (GameEvent::AttackersDeclared { attacker_ids, defending_player, attacks }),
        0 <= at <= up_to_date(g).objects[id].keywords@.len(),
        forall|i: int|
            0 <= i < at ==> !(#[trigger] up_to_date(g).objects[id].keywords@[i] is Firebending),
        at < up_to_date(g).objects[id].keywords@.len() ==> up_to_date(
            g,
        ).objects[id].keywords@[at] is Firebending,
        triggers_processed(g, events).pending_trigger is None,
    ensures
        ({
            let o = up_to_date(g).objects[id];
            let number = o.keywords@[at]->Firebending_0;
            &&& at < o.keywords@.len() && number > 0 ==> newly_stacked(
                g,
                triggers_processed(g, events),
                id,
                o.controller,
                bare_ability(red_until_end_of_combat(number), id, o.controller),
                events[e],
            )
            &&& o.keywords@.contains(Keyword::Decayed) ==> newly_stacked(
                g,
                triggers_processed(g, events),
                id,
                o.controller,
                bare_ability(sacrifice_at_end_of_combat(), id, o.controller),
                events[e],
            )
        }),
{
    let current = up_to_date(g);
    let o = current.objects[id];
    let event = events[e];
    lemma_never_suppressed(scanned(current, events, e as nat).game, event);
    let number = o.keywords@[at]->Firebending_0;
    let x = bare_trigger(
        id,
        o.controller,
        None,
        bare_ability(red_until_end_of_combat(number), id, o.controller),
        entered_turn(o),
        event,
        Some(Text::Numbered("Firebending", number)),
        None,
    );
    let y = bare_trigger(
        id,
        o.controller,
        None,
        bare_ability(sacrifice_at_end_of_combat(), id, o.controller),
        entered_turn(o),
        event,
        Some(Text::Literal("Decayed")),
        None,
    );
    if at < o.keywords@.len() && number > 0 {
        assert forall|h: Game| #[trigger] same_facts(current, h) implies keyword_triggers(
            h,
            o,
            id,
            event,
        ).contains(x) by {
            law_on_attack(h, o, id, attacker_ids, defending_player, attacks, at);
            assert(keyword_triggers(h, o, id, event)[0] == x);
        }
        lemma_keyword_found(current, events, e, id, x);
        lemma_goes_on_stack(x);
        lemma_found_stacked(g, events, x);
    }
    if o.keywords@.contains(Keyword::Decayed) {
        assert forall|h: Game| #[trigger] same_facts(current, h) implies keyword_triggers(
            h,
            o,
            id,
            event,
        ).contains(y) by {
            law_on_attack(h, o, id, attacker_ids, defending_player, attacks, at);
            let all = keyword_triggers(h, o, id, event);
            assert(all[all.len() - 1] == y);
        }
        lemma_keyword_found(current, events, e, id, y);
        lemma_goes_on_stack(y);
        lemma_found_stacked(g, events, y);
    }
}

/// What paying for ward means: the mana, the life, a card, the sacrifice or the waterbending that
/// it asks for; of several the first, and nothing where there is none (CR 702.21a).
pub proof fn law_ward_payment(
    cost: ManaCost,
    amount: i32,
    count: u32,
    filter: Rc<TargetFilter>,
    first: WardCost,
    rest: List<WardCost>,
)
    ensures
        ward_payment(WardCost::Mana(cost)) == (AbilityCost::Mana { cost }),
        ward_payment(WardCost::PayLife(amount)) == (AbilityCost::PayLife {
            amount: QuantityExpr::Fixed { value: amount },
        }),
        ward_payment(WardCost::DiscardCard) == (AbilityCost::Discard {
            count: QuantityExpr::Fixed { value: 1 },
            filter: None,
            random: false,
            self_ref: false,
        }),
        ward_payment(WardCost::Sacrifice { count, filter }) == (AbilityCost::Sacrifice {
            target: filter,
            count,
        }),
        ward_payment(WardCost::Waterbend(cost)) == (AbilityCost::Mana { cost }),
        ward_payment(
            WardCost::Compound(
                List { node: Some(Rc::new(crate::list::Node { item: Rc::new(first), rest })) },
            ),
        ) == ward_payment(first),
        ward_payment(WardCost::Compound(List { node: None })) == (AbilityCost::Mana {
            cost: ManaCost::generic_spec(0),
        }),
{
    reveal_with_fuel(ward_payment, 2);
}

/// "Counter it unless its controller pays."
pub open spec fn ward_ability_for(
    cost: WardCost,
    id: ObjectId,
    controller: PlayerId,
) -> ResolvedAbility {
    ResolvedAbility {
        unless_pay: Some(
            Rc::new(
                UnlessPayModifier {
                    cost: ward_payment(cost),
                    payer: TargetFilter::TriggeringSpellController,
                },
            ),
        ),
        ..bare_ability(Effect::Counter { target: TargetFilter::TriggeringSource }, id, controller)
    }
}

/// The trigger of one ward.
pub open spec fn ward_trigger(o: GameObject, id: ObjectId, cost: WardCost, event: GameEvent) ->
    PendingTriggerContext {
    bare_trigger(
        id,
        o.controller,
        None,
        ward_ability_for(cost, id, o.controller),
        entered_turn(o),
        event,
        Some(Text::Literal("Ward")),
        None,
    )
}

proof fn lemma_wards(keywords: List<Keyword>, o: GameObject, id: ObjectId, event: GameEvent)
    ensures
        ward_triggers_of(keywords, o, id, event).len() == keywords@.filter(
            |k: Keyword| k is Ward,
        ).len(),
        forall|i: int|
            0 <= i < keywords@.len() && (#[trigger] keywords@[i] is Ward) ==> ward_triggers_of(
                keywords,
                o,
                id,
                event,
            ).contains(ward_trigger(o, id, keywords@[i]->Ward_0, event)),
    decreases keywords,
{
    reveal(Seq::filter);
    let test = |k: Keyword| k is Ward;
    if keywords.node is Some {
        let rest = list_rest(keywords);
        lemma_wards(rest, o, id, event);
        let items = keywords@;
        let tail = rest@;
        let there = ward_triggers_of(rest, o, id, event);
        let all = ward_triggers_of(keywords, o, id, event);
        assert(items[0] == *keywords.node->0.item);
        assert(items =~= seq![items[0]] + tail);
        Seq::filter_distributes_over_add(seq![items[0]], tail, test);
        reveal_with_fuel(Seq::filter, 2);
        assert(seq![items[0]].drop_last() =~= Seq::<Keyword>::empty());
        assert forall|i: int| 0 <= i < items.len() && (#[trigger] items[i] is Ward) implies all.contains(
            ward_trigger(o, id, items[i]->Ward_0, event),
        ) by {
            let x = ward_trigger(o, id, items[i]->Ward_0, event);
            if i == 0 {
                assert(all[0] == x);
            } else {
                assert(items[i] == tail[i - 1]);
                let k = choose|k: int| 0 <= k < there.len() && there[k] == x;
                if items[0] is Ward {
                    assert(all[k + 1] == x);
                } else {
                    assert(all[k] == x);
                }
            }
        }
    }
}

proof fn lemma_targeting_controller(stack: Seq<StackEntry>, source: ObjectId, from: nat, at: int)
    requires
        from <= at <= stack.len(),
        forall|i: int|
            from <= i < at ==> (#[trigger] stack[i]).id != source && stack[i].source_id != source,
        at < stack.len() ==> stack[at].id == source || stack[at].source_id == source,
    ensures
        stack_entry_of(stack, source, from) == (if at < stack.len() {
            Some(stack[at])
        } else {
            None
        }),
    decreases at - from,
{
    if from < at {
        lemma_targeting_controller(stack, source, from + 1, at);
    }
}

/// Whether another player than the given one controls what targets something: the spell or
/// ability of a source that is found at `at` on the stack, or, where none is, the source itself.
pub open spec fn targeted_by_opponent(
    g: Game,
    source: ObjectId,
    player: PlayerId,
    at: int,
) -> bool {
    if at < g.stack.len() {
        g.stack[at].controller != player
    } else {
        g.objects.contains_key(source) && g.objects[source].controller != player
    }
}

/// When something becomes a target, a permanent's keywords bring something only if it is the one,
/// and a spell or ability of another player targets it: then each of its wards counters that
/// spell or ability unless its cost is paid, and nothing else happens (CR 702.21a).
pub proof fn law_on_target(
    g: Game,
    o: GameObject,
    id: ObjectId,
    target: ObjectId,
    source: ObjectId,
    at: int,
)
    requires
        0 <= at <= g.stack.len(),
        forall|i: int|
            0 <= i < at ==> (#[trigger] g.stack[i]).id != source && g.stack[i].source_id != source,
        at < g.stack.len() ==> g.stack[at].id == source || g.stack[at].source_id == source,
    ensures
        ({
            let event = GameEvent::BecomesTarget { object_id: target, source_id: source };
            let triggers = keyword_triggers(g, o, id, event);
            let set_off = target == id && targeted_by_opponent(g, source, o.controller, at);
            &&& !set_off ==> triggers.len() == 0
            &&& set_off ==> triggers.len() == o.keywords@.filter(|k: Keyword| k is Ward).len()
            &&& set_off ==> forall|i: int|
                0 <= i < o.keywords@.len() && (#[trigger] o.keywords@[i] is Ward)
                    ==> triggers.contains(ward_trigger(o, id, o.keywords@[i]->Ward_0, event))
        }),
{
    reveal(keyword_triggers);
    let event = GameEvent::BecomesTarget { object_id: target, source_id: source };
    lemma_targeting_controller(g.stack, source, 0, at);
    lemma_wards(o.keywords, o, id, event);
    let set_off = target == id && targeted_by_opponent(g, source, o.controller, at);
    let triggers = keyword_triggers(g, o, id, event);
    if set_off {
        assert(triggers =~= ward_triggers_of(o.keywords, o, id, event));
    } else {
        assert(triggers =~= Seq::<PendingTriggerContext>::empty());
    }
}

/// When an opponent's spell or ability targets a permanent with ward, then once triggers have been
/// processed each of its wards is on the stack, unless some trigger is set aside (CR 702.21a).
pub proof fn law_ward(
    g: Game,
    events: Seq<GameEvent>,
    e: int,
    id: ObjectId,
    source: ObjectId,
    at: int,
    k: int,
)
    requires
        0 <= e < events.len(),
        is_permanent(up_to_date(g), id),
        events[e] == (GameEvent::BecomesTarget { object_id: id, source_id: source }),
        0 <= at <= up_to_date(g).stack.len(),
        forall|i: int|
            0 <= i < at ==> (#[trigger] up_to_date(g).stack[i]).id != source && up_to_date(
                g,
            ).stack[i].source_id != source,
        at < up_to_date(g).stack.len() ==> up_to_date(g).stack[at].id == source || up_to_date(
            g,
        ).stack[at].source_id == source,
        targeted_by_opponent(
            up_to_date(g),
            source,
            up_to_date(g).objects[id].controller,
            at,
        ),
        0 <= k < up_to_date(g).objects[id].keywords@.len(),
        up_to_date(g).objects[id].keywords@[k] is Ward,
        triggers_processed(g, events).pending_trigger is None,
    ensures
        ({
            let o = up_to_date(g).objects[id];
            newly_stacked(
                g,
                triggers_processed(g, events),
                id,
                o.controller,
                ward_ability_for(o.keywords@[k]->Ward_0, id, o.controller),
                events[e],
            )
        }),
{
    let current = up_to_date(g);
    let o = current.objects[id];
    let event = events[e];
    lemma_never_suppressed(scanned(current, events, e as nat).game, event);
    let x = ward_trigger(o, id, o.keywords@[k]->Ward_0, event);
    assert forall|h: Game| #[trigger] same_facts(current, h) implies keyword_triggers(
        h,
        o,
        id,
        event,
    ).contains(x) by {
        law_on_target(h, o, id, id, source, at);
        assert(o.keywords@[k] is Ward);
    }
    lemma_keyword_found(current, events, e, id, x);
    lemma_goes_on_stack(x);
    lemma_found_stacked(g, events, x);
}

/// On every other event a permanent's keywords bring nothing.
pub proof fn law_on_nothing_else(g: Game, o: GameObject, id: ObjectId, event: GameEvent)
    requires
        !(event is SpellCast),
        !(event is ZoneChanged),
        !(event is AttackersDeclared),
        !(event is BecomesTarget),
    ensures
        keyword_triggers(g, o, id, event).len() == 0,
{
    reveal(keyword_triggers);
}

/// Firebending that triggers marks its controller as having bent fire this turn, and changes
/// nothing else.
pub proof fn law_fire_bent(g: Game, seat: int)
    requires
        0 <= seat < g.players.len(),
        forall|i: int| 0 <= i < seat ==> g.players[i].id != g.players[seat].id,
    ensures
        ({
            let after = fire_bent(g, g.players[seat].id);
            &&& after == (Game { players: after.players, ..g })
            &&& after.players.len() == g.players.len()
            &&& after.players[seat].bending_types_this_turn.fire
            &&& forall|i: int|
                0 <= i < g.players.len() && i != seat ==> #[trigger] after.players[i]
                    == g.players[i]
        }),
{
    crate::state::lemma_first_seat(g.players, g.players[seat].id, 0);
}

} // verus!
