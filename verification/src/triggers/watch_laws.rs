//! Which events each mode of trigger watches for, what doubles or suppresses a trigger, and which
//! trigger goes on the stack first.

use crate::ability::{
    AttackTargetFilter, StaticDefinition, StaticMode, SuppressedTriggerEvent, TargetFilter,
    TriggerCause, TriggerDefinition, TriggerMode,
};
use crate::events::{GameEvent, ZoneChangeRecord};
use crate::filter::{
    moved_subject, object_matches, player_matches, record_subject, subject_matches, types_meet,
    FilterContext,
};
use crate::ids::{
    AttackTarget, CardId, CoreType, ManaType, ObjectId, Phase, PlayerId, TargetRef, Zone,
};
use crate::list::{list_rest, List};
use crate::matchers::{
    any_attacker_matches, any_source_allowed, attack_events, attack_events_of, attack_of,
    attacker_matches, trigger_matches,
};
use crate::object::GameObject;
use crate::state::Game;
use crate::triggers::collect::{
    permanent_suppresses, statics_suppress, suppressed, PendingTriggerContext,
};
use crate::triggers::order::precedes;
use crate::triggers::placing::{cause_matches, doubles, doubling_static};
use crate::triggers::PendingTrigger;
use std::rc::Rc;
use vstd::prelude::*;

verus! {

/// What a trigger of an object asks of others: that they match a filter, where it has one that
/// does not let everything through.
pub open spec fn lets_object(g: Game, f: Option<TargetFilter>, id: ObjectId, ctx: FilterContext) ->
    bool {
    f is Some && !(f->0 is Any) ==> object_matches(g, id, f->0, ctx)
}

/// What it asks of players, where it has a filter for them.
pub open spec fn lets_player(f: Option<TargetFilter>, player: PlayerId, ctx: FilterContext) ->
    bool {
    f is Some ==> player_matches(player, f->0, ctx)
}

/// The question as a known source asks it.
pub open spec fn asked_by(g: Game, source: ObjectId) -> FilterContext {
    FilterContext {
        source_id: source,
        controller: if g.objects.contains_key(source) {
            Some(g.objects[source].controller)
        } else {
            None
        },
        trigger_object: None,
    }
}

/// A trigger on a change of zones watches for moves from the zone and to the zone that it names,
/// of objects that its filter lets through as they were; one that names none watches for all.
pub proof fn law_watches_moves(
    g: Game,
    def: TriggerDefinition,
    source: ObjectId,
    object_id: ObjectId,
    from: Option<Zone>,
    to: Zone,
    record: Rc<ZoneChangeRecord>,
)
    requires
        def.mode == TriggerMode::ChangesZone,
    ensures
        trigger_matches(g, GameEvent::ZoneChanged { object_id, from, to, record }, def, source)
            <==> ((def.origin is Some ==> from == def.origin) && (def.destination is Some
            ==> def.destination == Some(to)) && (def.valid_card is Some ==> subject_matches(
            g,
            moved_subject(g, object_id, to, *record),
            def.valid_card->0,
            asked_by(g, source),
        ))),
{
}

/// What triggers on spells, draws, discards, sacrifices and crimes watch for: the card and the
/// player that their filters let through; a crime must be the controller's own.
pub proof fn law_watches_deeds(
    g: Game,
    def: TriggerDefinition,
    source: ObjectId,
    card_id: CardId,
    object_id: ObjectId,
    player: PlayerId,
    nth_in_turn: u32,
    nth_in_step: u32,
)
    ensures
        ({
            let lets = lets_object(g, def.valid_card, object_id, asked_by(g, source))
                && lets_player(def.valid_target, player, asked_by(g, source));
            &&& def.mode == TriggerMode::SpellCast ==> (trigger_matches(
                g,
                GameEvent::SpellCast { card_id, controller: player, object_id },
                def,
                source,
            ) <==> lets)
            &&& def.mode == TriggerMode::Drawn ==> (trigger_matches(
                g,
                GameEvent::CardDrawn { player_id: player, object_id, nth_in_turn, nth_in_step },
                def,
                source,
            ) <==> lets)
            &&& def.mode == TriggerMode::DiscardedAll ==> (trigger_matches(
                g,
                GameEvent::Discarded { player_id: player, object_id },
                def,
                source,
            ) <==> lets)
            &&& def.mode == TriggerMode::Sacrificed ==> (trigger_matches(
                g,
                GameEvent::PermanentSacrificed { object_id, player_id: player },
                def,
                source,
            ) <==> lets)
            &&& def.mode == TriggerMode::CommitCrime ==> (trigger_matches(
                g,
                GameEvent::CrimeCommitted { player_id: player },
                def,
                source,
            ) <==> g.objects.contains_key(source) && g.objects[source].controller == player)
        }),
{
}

/// What triggers on damage watch for: damage from a source and to a target that their filters let
/// through; and for combat damage to a player as a whole, that one of its sources is such.
pub proof fn law_watches_damage(
    g: Game,
    def: TriggerDefinition,
    source: ObjectId,
    dealer: ObjectId,
    id: ObjectId,
    player: PlayerId,
    amount: u32,
    is_combat: bool,
    excess: u32,
    source_amounts: List<(ObjectId, u32)>,
)
    ensures
        ({
            let ctx = asked_by(g, source);
            &&& def.mode == TriggerMode::DamageDone ==> (trigger_matches(
                g,
                GameEvent::DamageDealt {
                    source_id: dealer,
                    target: TargetRef::Object(id),
                    amount,
                    is_combat,
                    excess,
                },
                def,
                source,
            ) <==> lets_object(g, def.valid_source, dealer, ctx) && lets_object(
                g,
                def.valid_target,
                id,
                ctx,
            ))
            &&& def.mode == TriggerMode::DamageDone ==> (trigger_matches(
                g,
                GameEvent::DamageDealt {
                    source_id: dealer,
                    target: TargetRef::Player(player),
                    amount,
                    is_combat,
                    excess,
                },
                def,
                source,
            ) <==> lets_object(g, def.valid_source, dealer, ctx) && lets_player(
                def.valid_target,
                player,
                ctx,
            ))
            &&& def.mode == TriggerMode::DamageDoneOnceByController ==> (trigger_matches(
                g,
                GameEvent::CombatDamageDealtToPlayer {
                    player_id: player,
                    source_amounts,
                    total_damage: amount,
                },
                def,
                source,
            ) <==> (exists|j: int|
                0 <= j < source_amounts@.len() && lets_object(
                    g,
                    def.valid_source,
                    (#[trigger] source_amounts@[j]).0,
                    ctx,
                )) && lets_player(def.valid_target, player, ctx))
        }),
{
    lemma_any_source(g, source_amounts, def.valid_source, asked_by(g, source));
}

proof fn lemma_any_source(
    g: Game,
    amounts: List<(ObjectId, u32)>,
    f: Option<TargetFilter>,
    ctx: FilterContext,
)
    ensures
        any_source_allowed(g, amounts, f, ctx) <==> exists|j: int|
            0 <= j < amounts@.len() && lets_object(g, f, (#[trigger] amounts@[j]).0, ctx),
    decreases amounts,
{
    if amounts.node is Some {
        let rest = list_rest(amounts);
        lemma_any_source(g, rest, f, ctx);
        let items = amounts@;
        let tail = rest@;
        assert(items[0] == *amounts.node->0.item);
        assert(items.len() == tail.len() + 1);
        assert forall|j: int| 0 < j < items.len() implies #[trigger] items[j] == tail[j - 1] by {}
        if any_source_allowed(g, rest, f, ctx) {
            let j = choose|j: int|
                0 <= j < tail.len() && lets_object(g, f, (#[trigger] tail[j]).0, ctx);
            assert(items[j + 1] == tail[j]);
        }
    }
}

/// What triggers on tokens, mana, targets, phases, crews and lost life watch for.
pub proof fn law_watches_rest(
    g: Game,
    def: TriggerDefinition,
    source: ObjectId,
    object_id: ObjectId,
    other: ObjectId,
    player: PlayerId,
    name: crate::text::Text,
    mana_type: ManaType,
    tapped_for_mana: bool,
    phase: Phase,
    creatures: List<ObjectId>,
    amount: i32,
)
    ensures
        ({
            let ctx = asked_by(g, source);
            &&& def.mode == TriggerMode::TokenCreated ==> (trigger_matches(
                g,
                GameEvent::TokenCreated { object_id, name },
                def,
                source,
            ) <==> g.objects.contains_key(object_id) && lets_object(
                g,
                def.valid_card,
                object_id,
                ctx,
            ) && lets_player(def.valid_target, g.objects[object_id].controller, ctx))
            &&& def.mode == TriggerMode::TapsForMana ==> (trigger_matches(
                g,
                GameEvent::ManaAdded {
                    player_id: player,
                    mana_type,
                    source_id: object_id,
                    tapped_for_mana,
                },
                def,
                source,
            ) <==> tapped_for_mana && lets_object(g, def.valid_card, object_id, ctx)
                && lets_player(def.valid_target, player, ctx))
            &&& def.mode == TriggerMode::BecomesTarget ==> (trigger_matches(
                g,
                GameEvent::BecomesTarget { object_id, source_id: other },
                def,
                source,
            ) <==> if def.valid_card is None {
                object_id == source
            } else {
                lets_object(g, def.valid_card, object_id, ctx)
            })
            &&& def.mode == TriggerMode::Phase ==> (trigger_matches(
                g,
                GameEvent::PhaseChanged { phase },
                def,
                source,
            ) <==> (def.phase is Some ==> def.phase == Some(phase)) && lets_player(
                def.valid_target,
                g.active_player,
                ctx,
            ))
            &&& def.mode == TriggerMode::SaddlesOrCrews ==> (trigger_matches(
                g,
                GameEvent::VehicleCrewed { vehicle_id: object_id, creatures },
                def,
                source,
            ) <==> if def.valid_card is None {
                object_id == source || creatures@.contains(source)
            } else {
                lets_object(g, def.valid_card, object_id, ctx)
            })
            &&& def.mode == TriggerMode::LifeLost ==> (trigger_matches(
                g,
                GameEvent::LifeChanged { player_id: player, amount },
                def,
                source,
            ) <==> amount < 0 && lets_player(def.valid_target, player, ctx))
        }),
{
}

/// No trigger watches for an event of another kind than its mode names; state triggers and the
/// mode that firebending stands for watch for none.
pub proof fn law_watches_nothing_else(
    g: Game,
    def: TriggerDefinition,
    source: ObjectId,
    event: GameEvent,
)
    requires
        trigger_matches(g, event, def, source),
    ensures
        match def.mode {
            TriggerMode::ChangesZone => event is ZoneChanged,
            TriggerMode::SpellCast => event is SpellCast,
            TriggerMode::Attacks => event is AttackersDeclared,
            TriggerMode::DamageDone => event is DamageDealt,
            TriggerMode::DamageDoneOnceByController => event is CombatDamageDealtToPlayer,
            TriggerMode::Sacrificed => event is PermanentSacrificed,
            TriggerMode::CommitCrime => event is CrimeCommitted,
            TriggerMode::Drawn => event is CardDrawn,
            TriggerMode::TokenCreated => event is TokenCreated,
            TriggerMode::DiscardedAll => event is Discarded,
            TriggerMode::TapsForMana => event is ManaAdded,
            TriggerMode::BecomesTarget => event is BecomesTarget,
            TriggerMode::Phase => event is PhaseChanged,
            TriggerMode::SaddlesOrCrews => event is VehicleCrewed,
            TriggerMode::LifeLost => event is LifeChanged,
            TriggerMode::StateCondition | TriggerMode::Firebend => false,
        },
{
}

/// Whether an attacker is one that a trigger watches for, and attacks what it asks for; of an
/// attacker whose attack is not told, it is taken that it attacks the player.
pub open spec fn watched_attacker(
    g: Game,
    def: TriggerDefinition,
    id: ObjectId,
    target: Option<AttackTarget>,
    ctx: FilterContext,
) -> bool {
    &&& lets_object(g, def.valid_card, id, ctx)
    &&& def.attack_target_filter == Some(AttackTargetFilter::Player) ==> target is None
        || target->0 is Player
    &&& def.attack_target_filter == Some(AttackTargetFilter::Planeswalker) ==> target is Some
        && target->0 is Planeswalker
    &&& def.attack_target_filter == Some(AttackTargetFilter::Battle) ==> target is Some
        && target->0 is Battle
}

/// A trigger on attacks watches for a declaration with an attacker that it watches for.
pub proof fn law_watches_attacks(
    g: Game,
    def: TriggerDefinition,
    source: ObjectId,
    attacker_ids: List<ObjectId>,
    defending_player: PlayerId,
    attacks: List<(ObjectId, AttackTarget)>,
)
    requires
        def.mode == TriggerMode::Attacks,
    ensures
        trigger_matches(
            g,
            GameEvent::AttackersDeclared { attacker_ids, defending_player, attacks },
            def,
            source,
        ) <==> exists|j: int|
            0 <= j < attacker_ids@.len() && watched_attacker(
                g,
                def,
                #[trigger] attacker_ids@[j],
                attack_of(attacks, attacker_ids@[j]),
                asked_by(g, source),
            ),
{
    lemma_any_attacker(g, attacker_ids, attacks, def, asked_by(g, source));
}

/// What an attacker attacks stands in the first pair of the declaration that names it.
pub proof fn law_attack_told(
    named: ObjectId,
    target: AttackTarget,
    rest: List<(ObjectId, AttackTarget)>,
    id: ObjectId,
)
    ensures
        ({
            let attacks = List {
                node: Some(Rc::new(crate::list::Node { item: Rc::new((named, target)), rest })),
            };
            let none = List::<(ObjectId, AttackTarget)> { node: None };
            &&& attack_of(none, id) is None
            &&& named == id ==> attack_of(attacks, id) == Some(target)
            &&& named != id ==> attack_of(attacks, id) == attack_of(rest, id)
        }),
{
}

proof fn lemma_any_attacker(
    g: Game,
    ids: List<ObjectId>,
    attacks: List<(ObjectId, AttackTarget)>,
    def: TriggerDefinition,
    ctx: FilterContext,
)
    ensures
        any_attacker_matches(g, ids, attacks, def, ctx) <==> exists|j: int|
            0 <= j < ids@.len() && watched_attacker(
                g,
                def,
                #[trigger] ids@[j],
                attack_of(attacks, ids@[j]),
                ctx,
            ),
    decreases ids,
{
    if ids.node is Some {
        let rest = list_rest(ids);
        lemma_any_attacker(g, rest, attacks, def, ctx);
        let items = ids@;
        let tail = rest@;
        assert(items[0] == *ids.node->0.item);
        assert(items.len() == tail.len() + 1);
        assert forall|j: int| 0 < j < items.len() implies #[trigger] items[j] == tail[j - 1] by {}
        if any_attacker_matches(g, rest, attacks, def, ctx) {
            let j = choose|j: int|
                0 <= j < tail.len() && watched_attacker(
                    g,
                    def,
                    #[trigger] tail[j],
                    attack_of(attacks, tail[j]),
                    ctx,
                );
            assert(items[j + 1] == tail[j]);
        }
        assert(attacker_matches(g, items[0], attacks, def, ctx) == watched_attacker(
            g,
            def,
            items[0],
            attack_of(attacks, items[0]),
            ctx,
        ));
    }
}

/// A trigger on attacks happens once for each attacker that it watches for, with a declaration of
/// that attacker alone.
pub proof fn law_attacks_one_by_one(
    g: Game,
    def: TriggerDefinition,
    source: ObjectId,
    attacker_ids: List<ObjectId>,
    defending_player: PlayerId,
    attacks: List<(ObjectId, AttackTarget)>,
)
    ensures
        attack_events(
            g,
            GameEvent::AttackersDeclared { attacker_ids, defending_player, attacks },
            def,
            source,
        ).len() == attacker_ids@.filter(
            |id: ObjectId|
                watched_attacker(g, def, id, attack_of(attacks, id), asked_by(g, source)),
        ).len(),
{
    let ctx = asked_by(g, source);
    let test = |id: ObjectId|
        watched_attacker(g, def, id, attack_of(attacks, id), asked_by(g, source));
    lemma_attack_events(g, attacker_ids, defending_player, attacks, def, ctx, test);
}

proof fn lemma_attack_events(
    g: Game,
    ids: List<ObjectId>,
    defending_player: PlayerId,
    attacks: List<(ObjectId, AttackTarget)>,
    def: TriggerDefinition,
    ctx: FilterContext,
    test: spec_fn(ObjectId) -> bool,
)
    requires
        forall|id: ObjectId| #[trigger] test(id) == attacker_matches(g, id, attacks, def, ctx),
    ensures
        attack_events_of(g, ids, defending_player, attacks, def, ctx).len() == ids@.filter(
            test,
        ).len(),
    decreases ids,
{
    reveal(Seq::filter);
    if ids.node is Some {
        let rest = list_rest(ids);
        lemma_attack_events(g, rest, defending_player, attacks, def, ctx, test);
        let items = ids@;
        assert(items[0] == *ids.node->0.item);
        assert(items =~= seq![items[0]] + rest@);
        Seq::filter_distributes_over_add(seq![items[0]], rest@, test);
        reveal_with_fuel(Seq::filter, 2);
        assert(seq![items[0]].drop_last() =~= Seq::<ObjectId>::empty());
    }
}

/// What a doubler's cause asks of the event that set a trigger off: nothing; that a permanent, of
/// one of the types that it names if it names any, entered the battlefield; that creatures were
/// declared as attackers; or that a creature died (CR 603.2d).
pub proof fn law_causes(
    core_types: List<CoreType>,
    event: Option<GameEvent>,
    object_id: ObjectId,
    from: Option<Zone>,
    to: Zone,
    record: Rc<ZoneChangeRecord>,
)
    ensures
        cause_matches(TriggerCause::Any, event),
        cause_matches(TriggerCause::CreatureAttacking, event) <==> (event is Some
            && event->0 is AttackersDeclared),
        cause_matches(
            TriggerCause::EntersBattlefield { core_types },
            Some(GameEvent::ZoneChanged { object_id, from, to, record }),
        ) <==> (to == Zone::Battlefield && (core_types@.len() == 0 || exists|t: CoreType|
            #[trigger] core_types@.contains(t) && record.core_types@.contains(t))),
        cause_matches(
            TriggerCause::CreatureDying,
            Some(GameEvent::ZoneChanged { object_id, from, to, record }),
        ) <==> (from == Some(Zone::Battlefield) && to == Zone::Graveyard
            && record.core_types@.contains(CoreType::Creature)),
        !(event is Some && event->0 is ZoneChanged) ==> !cause_matches(
            TriggerCause::CreatureDying,
            event,
        ) && !cause_matches(TriggerCause::EntersBattlefield { core_types }, event),
{
    let types = record.core_types;
    lemma_types_meet(types, core_types@);
}

proof fn lemma_types_meet(types: List<CoreType>, others: Seq<CoreType>)
    ensures
        types_meet(types, others) <==> exists|t: CoreType| #[trigger]
            others.contains(t) && types@.contains(t),
    decreases types,
{
    if types.node is Some {
        let rest = list_rest(types);
        lemma_types_meet(rest, others);
        let items = types@;
        let tail = rest@;
        assert(items[0] == *types.node->0.item);
        assert(items.contains(items[0]));
        assert forall|t: CoreType| items.contains(t) <==> (t == items[0] || tail.contains(t)) by {
            if items.contains(t) {
                let j = choose|j: int| 0 <= j < items.len() && items[j] == t;
                if j > 0 {
                    assert(tail[j - 1] == t);
                }
            }
            if tail.contains(t) {
                let j = choose|j: int| 0 <= j < tail.len() && tail[j] == t;
                assert(items[j + 1] == t);
            }
        }
    }
}

/// A doubler makes a trigger happen once more exactly if the trigger is its controller's, is not
/// its own, has the cause that it asks for, and has a source that it affects (CR 603.2d).
pub proof fn law_doubler(
    g: Game,
    id: ObjectId,
    o: GameObject,
    def: StaticDefinition,
    cause: TriggerCause,
    trigger: PendingTrigger,
)
    requires
        def.mode == (StaticMode::DoubleTriggers { cause }),
    ensures
        doubles(g, id, o, def, trigger) <==> (trigger.controller == o.controller
            && trigger.source_id != id && cause_matches(cause, trigger.trigger_event) && (
        def.affected is Some ==> object_matches(
            g,
            trigger.source_id,
            def.affected->0,
            asked_by(g, id),
        ))),
{
}

/// Of an object's doublers the first that applies counts.
pub proof fn law_first_doubler(
    g: Game,
    o: GameObject,
    def: StaticDefinition,
    rest: List<StaticDefinition>,
)
    ensures
        ({
            let defs = List {
                node: Some(Rc::new(crate::list::Node { item: Rc::new(def), rest })),
            };
            let applies = def.mode is DoubleTriggers && crate::functioning::static_applies(
                g,
                o,
                def,
            );
            &&& doubling_static(g, o, List { node: None }) is None
            &&& applies ==> doubling_static(g, o, defs) == Some(def)
            &&& !applies ==> doubling_static(g, o, defs) == doubling_static(g, o, rest)
        }),
{
}

/// No event but an arrival or a death is suppressed.
pub proof fn law_not_suppressible(
    g: Game,
    event: GameEvent,
    object_id: ObjectId,
    from: Option<Zone>,
    to: Zone,
    record: Rc<ZoneChangeRecord>,
)
    ensures
        !(event is ZoneChanged) ==> !suppressed(g, event),
        to != Zone::Battlefield && !(from == Some(Zone::Battlefield) && to == Zone::Graveyard)
            ==> !suppressed(g, GameEvent::ZoneChanged { object_id, from, to, record }),
{
    reveal(suppressed);
}

/// An arrival or a death is suppressed exactly if a permanent has a static ability that applies,
/// that suppresses events of that kind, and whose filter lets the object through as it was
/// (CR 603.2g).
pub proof fn law_suppression(
    g: Game,
    object_id: ObjectId,
    from: Option<Zone>,
    to: Zone,
    record: Rc<ZoneChangeRecord>,
    what: SuppressedTriggerEvent,
)
    requires
        what == SuppressedTriggerEvent::EntersBattlefield <==> to == Zone::Battlefield,
        what == SuppressedTriggerEvent::Dies ==> from == Some(Zone::Battlefield) && to
            == Zone::Graveyard,
    ensures
        suppressed(g, GameEvent::ZoneChanged { object_id, from, to, record }) <==> exists|
            i: int,
            k: int,
        | #[trigger]
            suppresses(g, i, k, *record, what),
{
    reveal(suppressed);
    let event = GameEvent::ZoneChanged { object_id, from, to, record };
    assert forall|i: int| 0 <= i < g.battlefield.len() implies (permanent_suppresses(
        g,
        #[trigger] g.battlefield[i],
        *record,
        what,
    ) <==> exists|k: int| #[trigger] suppresses(g, i, k, *record, what)) by {
        let id = g.battlefield[i];
        if g.objects.contains_key(id) {
            let r = *record;
            lemma_statics_suppress(
                g,
                g.objects[id],
                g.objects[id].static_definitions,
                r,
                what,
            );
            let defs = g.objects[id].static_definitions;
            assert forall|k: int| 0 <= k < defs@.len() implies (#[trigger] suppresses(
                g,
                i,
                k,
                *record,
                what,
            ) == suppresses_by(g, g.objects[id], defs@[k], *record, what)) by {}
            if statics_suppress(g, g.objects[id], defs, *record, what) {
                let k = choose|k: int|
                    0 <= k < defs@.len() && suppresses_by(
                        g,
                        g.objects[id],
                        #[trigger] defs@[k],
                        *record,
                        what,
                    );
                assert(suppresses(g, i, k, *record, what));
            }
        }
    }
    if suppressed(g, event) {
        let i = choose|i: int|
            0 <= i < g.battlefield.len() && permanent_suppresses(
                g,
                #[trigger] g.battlefield[i],
                *record,
                what,
            );
        let k = choose|k: int| #[trigger] suppresses(g, i, k, *record, what);
        assert(suppresses(g, i, k, *record, what));
    }
    if exists|i: int, k: int| #[trigger] suppresses(g, i, k, *record, what) {
        let (i, k) = choose|i: int, k: int| #[trigger] suppresses(g, i, k, *record, what);
        assert(permanent_suppresses(g, g.battlefield[i], *record, what));
    }
}

/// Whether a static ability suppresses the triggers of such a move.
pub open spec fn suppresses_by(
    g: Game,
    o: GameObject,
    def: StaticDefinition,
    record: ZoneChangeRecord,
    kind: SuppressedTriggerEvent,
) -> bool {
    &&& !o.phased_out
    &&& o.zone == Zone::Command ==> o.is_emblem
    &&& def.condition matches Some(c) ==> crate::triggers::conditions::condition_holds(
        g,
        *c,
        o.controller,
        Some(o.id),
        None,
    )
    &&& def.mode matches StaticMode::SuppressTriggers { source_filter, events }
        && events@.contains(kind) && subject_matches(
        g,
        record_subject(g, record),
        source_filter,
        asked_by(g, o.id),
    )
}

/// Whether the static ability at `k` of the permanent at `i` suppresses them.
pub open spec fn suppresses(
    g: Game,
    i: int,
    k: int,
    record: ZoneChangeRecord,
    kind: SuppressedTriggerEvent,
) -> bool {
    &&& 0 <= i < g.battlefield.len()
    &&& g.objects.contains_key(g.battlefield[i])
    &&& 0 <= k < g.objects[g.battlefield[i]].static_definitions@.len()
    &&& suppresses_by(
        g,
        g.objects[g.battlefield[i]],
        g.objects[g.battlefield[i]].static_definitions@[k],
        record,
        kind,
    )
}

proof fn lemma_statics_suppress(
    g: Game,
    o: GameObject,
    defs: List<StaticDefinition>,
    record: ZoneChangeRecord,
    kind: SuppressedTriggerEvent,
)
    ensures
        statics_suppress(g, o, defs, record, kind) <==> exists|k: int|
            0 <= k < defs@.len() && suppresses_by(g, o, #[trigger] defs@[k], record, kind),
    decreases defs,
{
    if defs.node is Some {
        let rest = list_rest(defs);
        lemma_statics_suppress(g, o, rest, record, kind);
        let items = defs@;
        let tail = rest@;
        assert(items[0] == *defs.node->0.item);
        assert(items.len() == tail.len() + 1);
        assert forall|j: int| 0 < j < items.len() implies #[trigger] items[j] == tail[j - 1] by {}
        if statics_suppress(g, o, rest, record, kind) {
            let j = choose|j: int|
                0 <= j < tail.len() && suppresses_by(g, o, #[trigger] tail[j], record, kind);
            assert(items[j + 1] == tail[j]);
        }
    }
}

/// Of two triggers the active player's goes before another player's, and of two of the active
/// player, or two of others, the one with the earlier timestamp (CR 603.3b).
pub proof fn law_precedence(active: PlayerId, a: PendingTriggerContext, b: PendingTriggerContext)
    ensures
        a.pending.controller == active && b.pending.controller != active ==> precedes(
            active,
            a,
            b,
        ) && !precedes(active, b, a),
        (a.pending.controller == active <==> b.pending.controller == active) ==> (precedes(
            active,
            a,
            b,
        ) <==> a.pending.timestamp < b.pending.timestamp),
{
}

} // verus!
