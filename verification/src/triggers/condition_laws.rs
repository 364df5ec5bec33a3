//! What each intervening-if condition and each limit on a trigger says of the players, the
//! objects and the turn (CR 603.4).

use crate::ability::{
    CounterMatch, PlayerFilter, QuantityExpr, SolveCondition, TargetFilter, TriggerCondition,
    TriggerConstraint,
};
use crate::combat::AttackerInfo;
use crate::events::GameEvent;
use crate::filter::{cast_matches, moved_subject, object_matches, subject_matches, FilterContext};
use crate::ids::{
    AttackTarget, CastTimingPermission, CastVariant, Comparator, ControllerRef, CoreType,
    CounterType, DungeonId, KickerVariant, ManaColor, ObjectId, Phase, PlayerId, TargetRef, Zone,
};
use crate::list::{list_rest, List};
use crate::object::{CaseState, ChosenAttribute, SpellCastRecord, TributeOutcome};
use crate::quantity::{count_casts, quantity, spells_from};
use crate::state::{lemma_first_seat, Game};
use crate::text::holds_text;
use crate::triggers::conditions::{
    attacked_by_others, attacker_in_scope, attackers_in_scope, attacks_now, co_attackers,
    condition_holds, constraint_allows, creatures_counted, dealt_damage_to, defenders_control_none,
    has_commander, is_commander_of, is_creature_of, opponent_lost_life_last_turn, permanent_counts,
    permanents_counted, solve_count, some_permanent, tribute_paid,
};
use vstd::prelude::*;

verus! {

/// What the conditions on a trigger's controller say of a player in the game: each holds exactly
/// when that player's life, speed, marks and history of the turn are as it asks.
pub proof fn law_player_conditions(
    g: Game,
    seat: int,
    source: Option<ObjectId>,
    event: Option<GameEvent>,
)
    requires
        0 <= seat < g.players.len(),
        forall|i: int| 0 <= i < seat ==> g.players[i].id != g.players[seat].id,
    ensures
        ({
            let p = g.players[seat];
            &&& forall|minimum: u32|
                #[trigger] condition_holds(
                    g,
                    TriggerCondition::GainedLife { minimum },
                    p.id,
                    source,
                    event,
                ) <==> p.life_gained_this_turn >= minimum
            &&& condition_holds(g, TriggerCondition::LostLife, p.id, source, event)
                <==> p.life_lost_this_turn > 0
            &&& condition_holds(g, TriggerCondition::Descended, p.id, source, event)
                <==> p.descended_this_turn
            &&& forall|minimum: i32|
                #[trigger] condition_holds(
                    g,
                    TriggerCondition::LifeTotalGE { minimum },
                    p.id,
                    source,
                    event,
                ) <==> p.life >= minimum
            &&& condition_holds(g, TriggerCondition::HasMaxSpeed, p.id, source, event) <==> (
            p.speed matches Some(speed) && speed >= 4)
        }),
{
    let p = g.players[seat];
    lemma_first_seat(g.players, p.id, 0);
    assert(g.player(p.id) == Some(p));
}

/// No condition on a controller's life, speed or descending holds for one who is not a player.
pub proof fn law_no_such_player(
    g: Game,
    controller: PlayerId,
    source: Option<ObjectId>,
    event: Option<GameEvent>,
)
    requires
        forall|i: int| 0 <= i < g.players.len() ==> g.players[i].id != controller,
    ensures
        forall|minimum: u32|
            !#[trigger] condition_holds(
                g,
                TriggerCondition::GainedLife { minimum },
                controller,
                source,
                event,
            ),
        !condition_holds(g, TriggerCondition::LostLife, controller, source, event),
        !condition_holds(g, TriggerCondition::Descended, controller, source, event),
        forall|minimum: i32|
            !#[trigger] condition_holds(
                g,
                TriggerCondition::LifeTotalGE { minimum },
                controller,
                source,
                event,
            ),
        !condition_holds(g, TriggerCondition::HasMaxSpeed, controller, source, event),
{
    lemma_first_seat(g.players, controller, 0);
    assert(g.player(controller) is None);
}

/// What the conditions that the game keeps for its players say: who attacked, who put counters
/// on something, who is the monarch, who has the city's blessing, which dungeons were completed,
/// and whether an opponent lost life during the turn before.
pub proof fn law_game_marks(
    g: Game,
    controller: PlayerId,
    source: Option<ObjectId>,
    event: Option<GameEvent>,
)
    ensures
        condition_holds(g, TriggerCondition::AttackedThisTurn, controller, source, event)
            <==> g.players_attacked_this_turn.contains(controller),
        condition_holds(g, TriggerCondition::CounterAddedThisTurn, controller, source, event)
            <==> g.counter_added_this_turn.contains(controller),
        condition_holds(g, TriggerCondition::IsMonarch, controller, source, event)
            <==> g.monarch == Some(controller),
        condition_holds(g, TriggerCondition::HasCityBlessing, controller, source, event)
            <==> g.city_blessing.contains(controller),
        condition_holds(g, TriggerCondition::LostLifeLastTurn, controller, source, event) <==> (
        exists|i: int|
            0 <= i < g.players.len() && (#[trigger] g.players[i]).id != controller
                && g.players[i].life_lost_last_turn > 0),
        condition_holds(
            g,
            TriggerCondition::CompletedDungeon { specific: None },
            controller,
            source,
            event,
        ) <==> (g.dungeon_progress.contains_key(controller)
            && g.dungeon_progress[controller].completed@.len() > 0),
        forall|dungeon: DungeonId|
            #[trigger] condition_holds(
                g,
                TriggerCondition::CompletedDungeon { specific: Some(dungeon) },
                controller,
                source,
                event,
            ) <==> (g.dungeon_progress.contains_key(controller)
                && g.dungeon_progress[controller].completed@.contains(dungeon)),
{
    assert(opponent_lost_life_last_turn(g, controller) <==> (exists|i: int|
        0 <= i < g.players.len() && (#[trigger] g.players[i]).id != controller
            && g.players[i].life_lost_last_turn > 0));
}

/// A spell cast this turn counts for its caster alone, and where a filter is given only if the
/// filter lets it through; a player without a record of casts has cast nothing.
pub proof fn law_cast_this_turn(
    g: Game,
    at: int,
    controller: PlayerId,
    filter: Option<TargetFilter>,
    source: Option<ObjectId>,
    event: Option<GameEvent>,
)
    requires
        0 <= at <= g.spells_cast_this_turn_by_player.len(),
        forall|i: int|
            0 <= i < at ==> (#[trigger] g.spells_cast_this_turn_by_player[i]).player != controller,
        at < g.spells_cast_this_turn_by_player.len() ==> g.spells_cast_this_turn_by_player[at].player
            == controller,
    ensures
        condition_holds(
            g,
            TriggerCondition::CastSpellThisTurn { filter },
            controller,
            source,
            event,
        ) <==> (at < g.spells_cast_this_turn_by_player.len() && match filter {
            None => g.spells_cast_this_turn_by_player[at].spells@.len() > 0,
            Some(f) => exists|j: int|
                0 <= j < g.spells_cast_this_turn_by_player[at].spells@.len() && cast_matches(
                    g,
                    #[trigger] g.spells_cast_this_turn_by_player[at].spells@[j],
                    f,
                    controller,
                ),
        }),
{
    lemma_spells_from(g.spells_cast_this_turn_by_player, controller, 0, at as nat);
    if at < g.spells_cast_this_turn_by_player.len() {
        let spells = g.spells_cast_this_turn_by_player[at].spells;
        lemma_casts_positive(g, spells, filter, controller);
    }
}

proof fn lemma_spells_from(
    histories: Seq<crate::state::CastHistory>,
    player: PlayerId,
    n: nat,
    at: nat,
)
    requires
        n <= at <= histories.len(),
        forall|i: int| 0 <= i < at ==> (#[trigger] histories[i]).player != player,
        at < histories.len() ==> histories[at as int].player == player,
    ensures
        spells_from(histories, player, n) == (if at < histories.len() {
            Some(histories[at as int].spells)
        } else {
            None
        }),
    decreases at - n,
{
    if n < at {
        lemma_spells_from(histories, player, n + 1, at);
    }
}

/// How many of the spells a filter lets through.
proof fn lemma_casts_counted(
    g: Game,
    spells: List<SpellCastRecord>,
    filter: Option<TargetFilter>,
    caster: PlayerId,
    test: spec_fn(SpellCastRecord) -> bool,
)
    requires
        forall|s: SpellCastRecord| #[trigger]
            test(s) == (filter is None || cast_matches(g, s, filter->0, caster)),
    ensures
        count_casts(g, spells, filter, caster) == spells@.filter(test).len(),
    decreases spells,
{
    reveal(Seq::filter);
    if spells.node is Some {
        let rest = list_rest(spells);
        lemma_casts_counted(g, rest, filter, caster, test);
        assert(spells@.drop_first() =~= rest@);
        lemma_filter_front(spells@, rest@, test);
    }
}

/// Filtering from the front: the first item counts where the test lets it through.
proof fn lemma_filter_front<T>(items: Seq<T>, rest: Seq<T>, test: spec_fn(T) -> bool)
    requires
        items.len() > 0,
        rest == items.drop_first(),
    ensures
        items.filter(test).len() == (if test(items[0]) {
            1nat
        } else {
            0nat
        }) + rest.filter(test).len(),
{
    reveal_with_fuel(Seq::filter, 2);
    let first = seq![items[0]];
    assert(items =~= first + rest);
    Seq::filter_distributes_over_add(first, rest, test);
    assert(first.drop_last() =~= Seq::<T>::empty());
}

proof fn lemma_casts_positive(
    g: Game,
    spells: List<SpellCastRecord>,
    filter: Option<TargetFilter>,
    caster: PlayerId,
)
    ensures
        count_casts(g, spells, filter, caster) > 0 <==> match filter {
            None => spells@.len() > 0,
            Some(f) => exists|j: int|
                0 <= j < spells@.len() && cast_matches(g, #[trigger] spells@[j], f, caster),
        },
    decreases spells,
{
    if spells.node is Some {
        let rest = list_rest(spells);
        lemma_casts_positive(g, rest, filter, caster);
        let items = spells@;
        let tail = rest@;
        assert(items.len() == tail.len() + 1);
        if filter is Some {
            let f = filter->0;
            if exists|j: int| 0 <= j < tail.len() && cast_matches(g, #[trigger] tail[j], f, caster) {
                let j = choose|j: int|
                    0 <= j < tail.len() && cast_matches(g, #[trigger] tail[j], f, caster);
                assert(items[j + 1] == tail[j]);
            }
            if exists|j: int| 0 < j < items.len() && cast_matches(g, #[trigger] items[j], f, caster) {
                let j = choose|j: int|
                    0 < j < items.len() && cast_matches(g, #[trigger] items[j], f, caster);
                assert(items[j] == tail[j - 1]);
            }
            assert(items[0] == *spells.node->0.item);
        }
    }
}

/// A player controls a commander when one of their own commanders is on the battlefield under
/// their control, and so many creatures as there are permanents that they control whose card
/// types say creature.
pub proof fn law_permanents_of(
    g: Game,
    controller: PlayerId,
    source: Option<ObjectId>,
    event: Option<GameEvent>,
)
    ensures
        condition_holds(g, TriggerCondition::ControlsCommander, controller, source, event) <==> (
        exists|i: int|
            0 <= i < g.battlefield.len() && g.objects.contains_key(#[trigger] g.battlefield[i])
                && g.objects[g.battlefield[i]].is_commander
                && g.objects[g.battlefield[i]].owner == controller
                && g.objects[g.battlefield[i]].controller == controller),
        forall|minimum: u32|
            #[trigger] condition_holds(
                g,
                TriggerCondition::ControlCreatures { minimum },
                controller,
                source,
                event,
            ) <==> g.battlefield.filter(
                |id: ObjectId|
                    g.objects.contains_key(id) && g.objects[id].controller == controller
                        && g.objects[id].card_types.core_types@.contains(CoreType::Creature),
            ).len() >= minimum,
{
    let test = |id: ObjectId|
        g.objects.contains_key(id) && g.objects[id].controller == controller
            && g.objects[id].card_types.core_types@.contains(CoreType::Creature);
    lemma_creatures_counted(g, controller, g.battlefield.len(), test);
    assert(g.battlefield.take(g.battlefield.len() as int) =~= g.battlefield);
    if has_commander(g, controller) {
        let i = choose|i: int|
            0 <= i < g.battlefield.len() && is_commander_of(
                g,
                #[trigger] g.battlefield[i],
                controller,
            );
        assert(g.objects.contains_key(g.battlefield[i]));
    }
    if exists|i: int|
        0 <= i < g.battlefield.len() && g.objects.contains_key(#[trigger] g.battlefield[i])
            && g.objects[g.battlefield[i]].is_commander && g.objects[g.battlefield[i]].owner
            == controller && g.objects[g.battlefield[i]].controller == controller {
        let i = choose|i: int|
            0 <= i < g.battlefield.len() && g.objects.contains_key(#[trigger] g.battlefield[i])
                && g.objects[g.battlefield[i]].is_commander
                && g.objects[g.battlefield[i]].owner == controller
                && g.objects[g.battlefield[i]].controller == controller;
        assert(is_commander_of(g, g.battlefield[i], controller));
    }
}

proof fn lemma_creatures_counted(
    g: Game,
    controller: PlayerId,
    n: nat,
    test: spec_fn(ObjectId) -> bool,
)
    requires
        n <= g.battlefield.len(),
        forall|id: ObjectId| #[trigger] test(id) == is_creature_of(g, id, controller),
    ensures
        creatures_counted(g, controller, n) == g.battlefield.take(n as int).filter(test).len(),
    decreases n,
{
    reveal(Seq::filter);
    if n > 0 {
        lemma_creatures_counted(g, controller, (n - 1) as nat, test);
        assert(g.battlefield.take(n as int).drop_last() =~= g.battlefield.take(n - 1));
    }
}

/// What the conditions on a trigger's source say of an object that is known.
pub proof fn law_source_conditions(
    g: Game,
    id: ObjectId,
    controller: PlayerId,
    event: Option<GameEvent>,
)
    requires
        g.objects.contains_key(id),
    ensures
        ({
            let o = g.objects[id];
            let source = Some(id);
            &&& condition_holds(
                g,
                TriggerCondition::SourceEnteredThisTurn,
                controller,
                source,
                event,
            ) <==> o.entered_battlefield_turn == Some(g.turn_number)
            &&& condition_holds(g, TriggerCondition::EchoDue, controller, source, event)
                <==> o.echo_due
            &&& forall|level: u8|
                #[trigger] condition_holds(
                    g,
                    TriggerCondition::ClassLevelGE { level },
                    controller,
                    source,
                    event,
                ) <==> (o.class_level is Some && o.class_level->0 >= level)
            &&& forall|variant: CastVariant|
                #[trigger] condition_holds(
                    g,
                    TriggerCondition::CastVariantPaid { variant },
                    controller,
                    source,
                    event,
                ) <==> o.cast_variant_paid == Some((variant, g.turn_number))
            &&& condition_holds(g, TriggerCondition::SourceIsTapped, controller, source, event)
                <==> o.tapped
            &&& condition_holds(
                g,
                TriggerCondition::SourceIsTransformed,
                controller,
                source,
                event,
            ) <==> o.transformed
            &&& condition_holds(g, TriggerCondition::SourceIsFaceUp, controller, source, event)
                <==> !o.face_down
            &&& condition_holds(g, TriggerCondition::SourceIsFaceDown, controller, source, event)
                <==> o.face_down
            &&& forall|zone: Zone|
                #[trigger] condition_holds(
                    g,
                    TriggerCondition::SourceInZone { zone },
                    controller,
                    source,
                    event,
                ) <==> o.zone == zone
            &&& condition_holds(g, TriggerCondition::TributeNotPaid, controller, source, event)
                <==> !o.chosen_attributes@.contains(
                ChosenAttribute::TributeOutcome(TributeOutcome::Paid),
            )
            &&& forall|permission: CastTimingPermission|
                #[trigger] condition_holds(
                    g,
                    TriggerCondition::CastTimingPermission { permission },
                    controller,
                    source,
                    event,
                ) <==> o.cast_timing_permission == Some((permission, g.turn_number))
            &&& condition_holds(g, TriggerCondition::SourceIsRenowned, controller, source, event)
                <==> o.is_renowned
        }),
{
    lemma_tribute_paid(g.objects[id].chosen_attributes);
}

proof fn lemma_tribute_paid(attributes: List<ChosenAttribute>)
    ensures
        tribute_paid(attributes) <==> attributes@.contains(
            ChosenAttribute::TributeOutcome(TributeOutcome::Paid),
        ),
    decreases attributes,
{
    if attributes.node is Some {
        let rest = list_rest(attributes);
        let paid = ChosenAttribute::TributeOutcome(TributeOutcome::Paid);
        lemma_tribute_paid(rest);
        let items = attributes@;
        let tail = rest@;
        assert(items[0] == *attributes.node->0.item);
        if tail.contains(paid) {
            let j = choose|j: int| 0 <= j < tail.len() && tail[j] == paid;
            assert(items[j + 1] == paid);
        }
        if items.contains(paid) {
            let j = choose|j: int| 0 <= j < items.len() && items[j] == paid;
            if j > 0 {
                assert(tail[j - 1] == paid);
            }
        }
    }
}

/// What the conditions on mana spent for a trigger's source, and on the counters that it has, say
/// of an object that is known.
pub proof fn law_source_amounts(
    g: Game,
    id: ObjectId,
    controller: PlayerId,
    event: Option<GameEvent>,
    minimum: u32,
    maximum: Option<u32>,
)
    requires
        g.objects.contains_key(id),
    ensures
        ({
            let o = g.objects[id];
            let source = Some(id);
            &&& condition_holds(
                g,
                TriggerCondition::ManaColorSpent { color: ManaColor::White, minimum },
                controller,
                source,
                event,
            ) <==> o.colors_spent_to_cast.white >= minimum
            &&& condition_holds(
                g,
                TriggerCondition::ManaColorSpent { color: ManaColor::Blue, minimum },
                controller,
                source,
                event,
            ) <==> o.colors_spent_to_cast.blue >= minimum
            &&& condition_holds(
                g,
                TriggerCondition::ManaColorSpent { color: ManaColor::Black, minimum },
                controller,
                source,
                event,
            ) <==> o.colors_spent_to_cast.black >= minimum
            &&& condition_holds(
                g,
                TriggerCondition::ManaColorSpent { color: ManaColor::Red, minimum },
                controller,
                source,
                event,
            ) <==> o.colors_spent_to_cast.red >= minimum
            &&& condition_holds(
                g,
                TriggerCondition::ManaColorSpent { color: ManaColor::Green, minimum },
                controller,
                source,
                event,
            ) <==> o.colors_spent_to_cast.green >= minimum
            &&& forall|kind: CounterType|
                #[trigger] condition_holds(
                    g,
                    TriggerCondition::HasCounters {
                        counters: CounterMatch::OfType(kind),
                        minimum,
                        maximum,
                    },
                    controller,
                    source,
                    event,
                ) <==> (o.counters.count(kind) >= minimum && (maximum is Some ==> o.counters.count(
                    kind,
                ) <= maximum->0))
            &&& o.counters.total() <= u32::MAX ==> (condition_holds(
                g,
                TriggerCondition::HasCounters { counters: CounterMatch::Any, minimum, maximum },
                controller,
                source,
                event,
            ) <==> (o.counters.total() >= minimum && (maximum is Some ==> o.counters.total()
                <= maximum->0)))
        }),
{
}

/// A trigger without a known source meets no condition on its source, but that a tribute was
/// not paid.
pub proof fn law_no_such_source(
    g: Game,
    condition: TriggerCondition,
    controller: PlayerId,
    source: Option<ObjectId>,
    event: Option<GameEvent>,
)
    requires
        source matches Some(id) ==> !g.objects.contains_key(id),
    ensures
        condition is SourceEnteredThisTurn || condition is EchoDue || condition is ClassLevelGE
            || condition is CastVariantPaid || condition is SourceIsTapped
            || condition is SourceIsTransformed || condition is SourceIsFaceUp
            || condition is SourceIsFaceDown || condition is SourceInZone
            || condition is CastTimingPermission || condition is ManaColorSpent
            || condition is SourceIsRenowned || condition is HasCounters
            || condition is SourceMatchesFilter || condition is SolveConditionMet
            ==> !condition_holds(g, condition, controller, source, event),
        condition_holds(g, TriggerCondition::TributeNotPaid, controller, source, event),
{
}

/// Conditions on what a source was are answered by what was last known of it.
pub proof fn law_last_known(
    g: Game,
    id: ObjectId,
    controller: PlayerId,
    event: Option<GameEvent>,
    card_type: CoreType,
    kind: CounterType,
)
    ensures
        condition_holds(
            g,
            TriggerCondition::WasType { card_type },
            controller,
            Some(id),
            event,
        ) <==> (g.lki_cache.contains_key(id)
            && g.lki_cache[id].card_types.core_types@.contains(card_type)),
        condition_holds(
            g,
            TriggerCondition::HadCounters { counter_type: Some(kind) },
            controller,
            Some(id),
            event,
        ) <==> (g.lki_cache.contains_key(id) && g.lki_cache[id].counters.count(kind) > 0),
        condition_holds(
            g,
            TriggerCondition::HadCounters { counter_type: None },
            controller,
            Some(id),
            event,
        ) <==> (g.lki_cache.contains_key(id) && g.lki_cache[id].counters.total() > 0),
        !condition_holds(g, TriggerCondition::WasType { card_type }, controller, None, event),
        forall|asked: Option<CounterType>|
            !#[trigger] condition_holds(
                g,
                TriggerCondition::HadCounters { counter_type: asked },
                controller,
                None,
                event,
            ),
{
}

/// What the conditions on the spells and combats of the turn and on its player say.
pub proof fn law_turn_conditions(
    g: Game,
    controller: PlayerId,
    source: Option<ObjectId>,
    event: Option<GameEvent>,
)
    ensures
        condition_holds(g, TriggerCondition::NoSpellsCastLastTurn, controller, source, event)
            <==> (g.spells_cast_last_turn is None || g.spells_cast_last_turn->0 == 0),
        condition_holds(g, TriggerCondition::TwoOrMoreSpellsCastLastTurn, controller, source, event)
            <==> (g.spells_cast_last_turn is Some && g.spells_cast_last_turn->0 >= 2),
        condition_holds(g, TriggerCondition::FirstCombatPhaseOfTurn, controller, source, event)
            <==> g.combat_phases_started_this_turn == 1,
        forall|phases: List<Phase>|
            #[trigger] condition_holds(
                g,
                TriggerCondition::CastDuringPhase { phases },
                controller,
                source,
                event,
            ) <==> phases@.contains(g.phase),
        condition_holds(
            g,
            TriggerCondition::DuringPlayersTurn { player: PlayerFilter::Controller },
            controller,
            source,
            event,
        ) <==> g.active_player == controller,
        condition_holds(
            g,
            TriggerCondition::DuringPlayersTurn { player: PlayerFilter::Opponent },
            controller,
            source,
            event,
        ) <==> g.active_player != controller,
        forall|card_id: crate::ids::CardId, caster: PlayerId, object_id: ObjectId|
            #[trigger] condition_holds(
                g,
                TriggerCondition::DuringPlayersTurn { player: PlayerFilter::TriggeringPlayer },
                controller,
                source,
                Some(GameEvent::SpellCast { card_id, controller: caster, object_id }),
            ) <==> g.active_player == caster,
        forall|player_id: PlayerId, amount: i32|
            #[trigger] condition_holds(
                g,
                TriggerCondition::DuringPlayersTurn { player: PlayerFilter::TriggeringPlayer },
                controller,
                source,
                Some(GameEvent::LifeChanged { player_id, amount }),
            ) <==> g.active_player == player_id,
        !condition_holds(
            g,
            TriggerCondition::DuringPlayersTurn { player: PlayerFilter::TriggeringPlayer },
            controller,
            source,
            None,
        ),
        forall|player: PlayerFilter|
            !(player is Controller) && !(player is Opponent) && !(player is TriggeringPlayer)
                ==> !#[trigger] condition_holds(
                g,
                TriggerCondition::DuringPlayersTurn { player },
                controller,
                source,
                event,
            ),
{
}

/// "Except the first card you draw in each of your draw steps": of the draws, only that one is
/// left out, and nothing but a draw meets the condition.
pub proof fn law_except_first_draw(
    g: Game,
    controller: PlayerId,
    source: Option<ObjectId>,
    player_id: PlayerId,
    object_id: ObjectId,
    nth_in_turn: u32,
    nth_in_step: u32,
    event: Option<GameEvent>,
)
    ensures
        condition_holds(
            g,
            TriggerCondition::ExceptFirstDrawInDrawStep,
            controller,
            source,
            Some(GameEvent::CardDrawn { player_id, object_id, nth_in_turn, nth_in_step }),
        ) <==> !(g.phase == Phase::Draw && g.active_player == player_id && nth_in_step == 1),
        !(event matches Some(GameEvent::CardDrawn { .. })) ==> !condition_holds(
            g,
            TriggerCondition::ExceptFirstDrawInDrawStep,
            controller,
            source,
            event,
        ),
{
}

/// What the conditions on how an object was cast say of the object that the event moved, or else
/// of the source: that it was cast, which kickers were paid, and that no mana was spent.
pub proof fn law_casting_conditions(
    g: Game,
    id: ObjectId,
    other: Option<ObjectId>,
    controller: PlayerId,
    from: Option<Zone>,
    to: Zone,
    record: std::rc::Rc<crate::events::ZoneChangeRecord>,
    kicker: KickerVariant,
    min_count: u32,
)
    requires
        g.objects.contains_key(id),
    ensures
        ({
            let o = g.objects[id];
            let moved = Some(GameEvent::ZoneChanged { object_id: id, from, to, record });
            &&& condition_holds(g, TriggerCondition::WasCast, controller, other, moved)
                <==> o.cast_from_zone is Some
            &&& condition_holds(g, TriggerCondition::WasCast, controller, Some(id), None)
                <==> o.cast_from_zone is Some
            &&& condition_holds(
                g,
                TriggerCondition::AdditionalCostPaid {
                    variant: Some(kicker),
                    kicker_cost: None,
                    min_count,
                },
                controller,
                other,
                moved,
            ) <==> o.kickers_paid@.contains(kicker)
            &&& condition_holds(
                g,
                TriggerCondition::AdditionalCostPaid {
                    variant: None,
                    kicker_cost: None,
                    min_count,
                },
                controller,
                other,
                moved,
            ) <==> o.kickers_paid@.len() >= min_count
            &&& condition_holds(
                g,
                TriggerCondition::AdditionalCostPaid {
                    variant: Some(kicker),
                    kicker_cost: None,
                    min_count,
                },
                controller,
                Some(id),
                None,
            ) <==> o.kickers_paid@.contains(kicker)
            &&& o.mana_spent_to_cast ==> forall|text: crate::text::Text|
                !#[trigger] condition_holds(
                    g,
                    TriggerCondition::ManaSpentCondition { text },
                    controller,
                    other,
                    moved,
                )
            &&& !o.mana_spent_to_cast ==> forall|text: crate::text::Text|
                #[trigger] condition_holds(
                    g,
                    TriggerCondition::ManaSpentCondition { text },
                    controller,
                    other,
                    moved,
                ) <==> (exists|i: int|
                    0 <= i <= text@.len() - 17 && #[trigger] text@.subrange(i, i + 17)
                        == "no mana was spent"@)
        }),
{
    reveal_strlit("no mana was spent");
    let phrase = "no mana was spent"@;
    assert(phrase.len() == 17);
    assert forall|text: crate::text::Text| #[trigger]
        holds_text(text@, phrase) == (exists|i: int|
            0 <= i <= text@.len() - 17 && #[trigger] text@.subrange(i, i + 17) == phrase) by {
        if holds_text(text@, phrase) {
            let i = choose|i: int|
                0 <= i <= text@.len() - phrase.len() && #[trigger] text@.subrange(
                    i,
                    i + phrase.len(),
                ) == phrase;
            assert(text@.subrange(i, i + 17) == phrase);
        }
        if exists|i: int|
            0 <= i <= text@.len() - 17 && #[trigger] text@.subrange(i, i + 17) == phrase {
            let i = choose|i: int|
                0 <= i <= text@.len() - 17 && #[trigger] text@.subrange(i, i + 17) == phrase;
            assert(text@.subrange(i, i + phrase.len()) == phrase);
        }
    }
}

/// "If it dealt damage this turn": the creature that the event destroyed, or the object that it
/// moved, was dealt damage by the source this turn.
pub proof fn law_damaged_by_source(
    g: Game,
    id: ObjectId,
    source: ObjectId,
    controller: PlayerId,
    from: Option<Zone>,
    to: Zone,
    record: std::rc::Rc<crate::events::ZoneChangeRecord>,
)
    ensures
        condition_holds(
            g,
            TriggerCondition::DealtDamageBySourceThisTurn,
            controller,
            Some(source),
            Some(GameEvent::CreatureDestroyed { object_id: id }),
        ) <==> (exists|i: int|
            0 <= i < g.damage_dealt_this_turn.len() && (
            #[trigger] g.damage_dealt_this_turn[i]).source_id == source
                && g.damage_dealt_this_turn[i].target == TargetRef::Object(id)),
        condition_holds(
            g,
            TriggerCondition::DealtDamageBySourceThisTurn,
            controller,
            Some(source),
            Some(GameEvent::ZoneChanged { object_id: id, from, to, record }),
        ) <==> (exists|i: int|
            0 <= i < g.damage_dealt_this_turn.len() && (
            #[trigger] g.damage_dealt_this_turn[i]).source_id == source
                && g.damage_dealt_this_turn[i].target == TargetRef::Object(id)),
        !condition_holds(
            g,
            TriggerCondition::DealtDamageBySourceThisTurn,
            controller,
            Some(source),
            None,
        ),
{
    assert(dealt_damage_to(g.damage_dealt_this_turn, source, id) <==> (exists|i: int|
        0 <= i < g.damage_dealt_this_turn.len() && (
        #[trigger] g.damage_dealt_this_turn[i]).source_id == source
            && g.damage_dealt_this_turn[i].target == TargetRef::Object(id)));
}

/// A condition on the object that moved asks for the zone that it came from, where one is given,
/// the zone that it went to, and that a filter lets the object through.
pub proof fn law_moved_object(
    g: Game,
    id: ObjectId,
    controller: PlayerId,
    source: ObjectId,
    from: Option<Zone>,
    to: Zone,
    record: std::rc::Rc<crate::events::ZoneChangeRecord>,
    origin: Option<Zone>,
    destination: Zone,
    filter: TargetFilter,
)
    requires
        g.objects.contains_key(source),
    ensures
        ({
            let ctx = FilterContext {
                source_id: source,
                controller: Some(g.objects[source].controller),
                trigger_object: None,
            };
            let condition = TriggerCondition::ZoneChangeObjectMatchesFilter {
                origin,
                destination,
                filter,
            };
            &&& condition_holds(
                g,
                condition,
                controller,
                Some(source),
                Some(GameEvent::ZoneChanged { object_id: id, from, to, record }),
            ) <==> (to == destination && (origin is Some ==> from == origin) && subject_matches(
                g,
                moved_subject(g, id, to, *record),
                filter,
                ctx,
            ))
            &&& !condition_holds(g, condition, controller, Some(source), None)
        }),
{
}

/// How many attackers were declared on a side: those that the trigger's controller controls, those
/// that another player controls, or all that are known.
pub proof fn law_attackers_declared(
    g: Game,
    controller: PlayerId,
    source: Option<ObjectId>,
    attacker_ids: List<ObjectId>,
    defending_player: PlayerId,
    attacks: List<(ObjectId, AttackTarget)>,
    minimum: u32,
)
    ensures
        ({
            let event = Some(
                GameEvent::AttackersDeclared { attacker_ids, defending_player, attacks },
            );
            &&& condition_holds(
                g,
                TriggerCondition::AttackersDeclaredMin { scope: ControllerRef::You, minimum },
                controller,
                source,
                event,
            ) <==> attacker_ids@.filter(
                |id: ObjectId|
                    g.objects.contains_key(id) && g.objects[id].controller == controller,
            ).len() >= minimum
            &&& condition_holds(
                g,
                TriggerCondition::AttackersDeclaredMin { scope: ControllerRef::Opponent, minimum },
                controller,
                source,
                event,
            ) <==> attacker_ids@.filter(
                |id: ObjectId|
                    g.objects.contains_key(id) && g.objects[id].controller != controller,
            ).len() >= minimum
            &&& condition_holds(
                g,
                TriggerCondition::AttackersDeclaredMin { scope: ControllerRef::Any, minimum },
                controller,
                source,
                event,
            ) <==> attacker_ids@.filter(|id: ObjectId| g.objects.contains_key(id)).len() >= minimum
            &&& condition_holds(
                g,
                TriggerCondition::NoneOfAttackersTargetedYou,
                controller,
                source,
                event,
            ) <==> (forall|i: int|
                0 <= i < attacks@.len() && (#[trigger] attacks@[i]).1 == AttackTarget::Player(
                    controller,
                ) && g.objects.contains_key(attacks@[i].0) ==> g.objects[attacks@[i].0].controller
                    == controller)
        }),
{
    let mine = |id: ObjectId|
        g.objects.contains_key(id) && g.objects[id].controller == controller;
    let theirs = |id: ObjectId|
        g.objects.contains_key(id) && g.objects[id].controller != controller;
    let known = |id: ObjectId| g.objects.contains_key(id);
    lemma_attackers_in_scope(g, attacker_ids, ControllerRef::You, controller, mine);
    lemma_attackers_in_scope(g, attacker_ids, ControllerRef::Opponent, controller, theirs);
    lemma_attackers_in_scope(g, attacker_ids, ControllerRef::Any, controller, known);
    lemma_attacked_by_others(g, attacks, controller);
}

proof fn lemma_attackers_in_scope(
    g: Game,
    ids: List<ObjectId>,
    scope: ControllerRef,
    controller: PlayerId,
    test: spec_fn(ObjectId) -> bool,
)
    requires
        forall|id: ObjectId| #[trigger] test(id) == attacker_in_scope(g, id, scope, controller),
    ensures
        attackers_in_scope(g, ids, scope, controller) == ids@.filter(test).len(),
    decreases ids,
{
    reveal(Seq::filter);
    if ids.node is Some {
        let rest = list_rest(ids);
        lemma_attackers_in_scope(g, rest, scope, controller, test);
        assert(ids@.drop_first() =~= rest@);
        lemma_filter_front(ids@, rest@, test);
    }
}

proof fn lemma_attacked_by_others(
    g: Game,
    attacks: List<(ObjectId, AttackTarget)>,
    controller: PlayerId,
)
    ensures
        attacked_by_others(g, attacks, controller) <==> !(forall|i: int|
            0 <= i < attacks@.len() && (#[trigger] attacks@[i]).1 == AttackTarget::Player(
                controller,
            ) && g.objects.contains_key(attacks@[i].0) ==> g.objects[attacks@[i].0].controller
                == controller),
    decreases attacks,
{
    if attacks.node is Some {
        let rest = list_rest(attacks);
        lemma_attacked_by_others(g, rest, controller);
        let items = attacks@;
        let tail = rest@;
        assert(items[0] == *attacks.node->0.item);
        assert(items.len() == tail.len() + 1);
        assert forall|i: int| 0 <= i < tail.len() implies #[trigger] tail[i] == items[i + 1] by {}
        assert forall|i: int| 0 < i < items.len() implies #[trigger] items[i] == tail[i - 1] by {}
        if attacked_by_others(g, rest, controller) {
            let i = choose|i: int|
                0 <= i < tail.len() && (#[trigger] tail[i]).1 == AttackTarget::Player(controller)
                    && g.objects.contains_key(tail[i].0) && g.objects[tail[i].0].controller
                    != controller;
            assert(items[i + 1] == tail[i]);
        }
    }
}

/// What the conditions on the combat say: how many others of the controller's creatures attack
/// with the source, whether the source attacks, and that no player who is attacked controls a
/// permanent that a filter lets through.
pub proof fn law_combat_conditions(
    g: Game,
    controller: PlayerId,
    source: ObjectId,
    event: Option<GameEvent>,
    minimum: u32,
    filter: TargetFilter,
)
    requires
        g.combat is Some,
        g.objects.contains_key(source),
    ensures
        ({
            let attackers = g.combat->0.attackers@;
            let ctx = FilterContext {
                source_id: source,
                controller: Some(g.objects[source].controller),
                trigger_object: None,
            };
            &&& condition_holds(
                g,
                TriggerCondition::MinCoAttackers { minimum },
                controller,
                Some(source),
                event,
            ) <==> attackers.filter(
                |a: AttackerInfo|
                    a.object_id != source && g.objects.contains_key(a.object_id)
                        && g.objects[a.object_id].controller == controller,
            ).len() >= minimum
            &&& condition_holds(
                g,
                TriggerCondition::SourceIsAttacking,
                controller,
                Some(source),
                event,
            ) <==> (exists|i: int|
                0 <= i < attackers.len() && (#[trigger] g.combat->0.attackers@[i]).object_id
                    == source)
            &&& condition_holds(
                g,
                TriggerCondition::DefendingPlayerControlsNone { filter },
                controller,
                Some(source),
                event,
            ) <==> (forall|i: int, j: int|
                0 <= i < attackers.len() && 0 <= j < g.battlefield.len()
                    && g.objects.contains_key(#[trigger] g.battlefield[j])
                    && g.objects[g.battlefield[j]].controller == (
                #[trigger] g.combat->0.attackers@[i]).defending_player ==> !object_matches(
                    g,
                    g.battlefield[j],
                    filter,
                    ctx,
                ))
        }),
{
    let others = |a: AttackerInfo|
        a.object_id != source && g.objects.contains_key(a.object_id)
            && g.objects[a.object_id].controller == controller;
    let attackers = g.combat->0.attackers;
    lemma_co_attackers(g, attackers, source, controller, others);
    lemma_attacks_now(attackers, source);
    let ctx = FilterContext {
        source_id: source,
        controller: Some(g.objects[source].controller),
        trigger_object: None,
    };
    lemma_defenders_control_none(g, attackers, filter, ctx);
}

/// Outside combat no condition on the combat is met.
pub proof fn law_no_combat(
    g: Game,
    controller: PlayerId,
    source: Option<ObjectId>,
    event: Option<GameEvent>,
    minimum: u32,
    filter: TargetFilter,
)
    requires
        g.combat is None,
    ensures
        !condition_holds(
            g,
            TriggerCondition::MinCoAttackers { minimum },
            controller,
            source,
            event,
        ),
        !condition_holds(g, TriggerCondition::SourceIsAttacking, controller, source, event),
        !condition_holds(
            g,
            TriggerCondition::DefendingPlayerControlsNone { filter },
            controller,
            source,
            event,
        ),
{
}

proof fn lemma_co_attackers(
    g: Game,
    attackers: List<AttackerInfo>,
    source: ObjectId,
    controller: PlayerId,
    test: spec_fn(AttackerInfo) -> bool,
)
    requires
        forall|a: AttackerInfo| #[trigger]
            test(a) == (a.object_id != source && g.controller_of(a.object_id) == Some(controller)),
    ensures
        co_attackers(g, attackers, source, controller) == attackers@.filter(test).len(),
    decreases attackers,
{
    reveal(Seq::filter);
    if attackers.node is Some {
        let rest = list_rest(attackers);
        lemma_co_attackers(g, rest, source, controller, test);
        assert(attackers@.drop_first() =~= rest@);
        lemma_filter_front(attackers@, rest@, test);
    }
}

proof fn lemma_attacks_now(attackers: List<AttackerInfo>, id: ObjectId)
    ensures
        attacks_now(attackers, id) <==> exists|i: int|
            0 <= i < attackers@.len() && (#[trigger] attackers@[i]).object_id == id,
    decreases attackers,
{
    if attackers.node is Some {
        let rest = list_rest(attackers);
        lemma_attacks_now(rest, id);
        let items = attackers@;
        let tail = rest@;
        assert(items[0] == *attackers.node->0.item);
        assert(items.len() == tail.len() + 1);
        assert forall|i: int| 0 < i < items.len() implies #[trigger] items[i] == tail[i - 1] by {}
        if attacks_now(rest, id) {
            let i = choose|i: int| 0 <= i < tail.len() && (#[trigger] tail[i]).object_id == id;
            assert(items[i + 1] == tail[i]);
        }
    }
}

proof fn lemma_defenders_control_none(
    g: Game,
    attackers: List<AttackerInfo>,
    filter: TargetFilter,
    ctx: FilterContext,
)
    ensures
        defenders_control_none(g, attackers, filter, ctx) <==> forall|i: int, j: int|
            0 <= i < attackers@.len() && 0 <= j < g.battlefield.len()
                && g.objects.contains_key(#[trigger] g.battlefield[j])
                && g.objects[g.battlefield[j]].controller == (
            #[trigger] attackers@[i]).defending_player ==> !object_matches(
                g,
                g.battlefield[j],
                filter,
                ctx,
            ),
    decreases attackers,
{
    if attackers.node is Some {
        let rest = list_rest(attackers);
        lemma_defenders_control_none(g, rest, filter, ctx);
        let items = attackers@;
        let tail = rest@;
        assert(items[0] == *attackers.node->0.item);
        assert(items.len() == tail.len() + 1);
        let defender = items[0].defending_player;
        assert forall|i: int| 0 < i < items.len() implies #[trigger] items[i] == tail[i - 1] by {}
        assert forall|i: int| 0 <= i < tail.len() implies #[trigger] tail[i] == items[i + 1] by {}
        assert(!some_permanent(g, Some(defender), filter, ctx) <==> forall|j: int|
            0 <= j < g.battlefield.len() && g.objects.contains_key(#[trigger] g.battlefield[j])
                && g.objects[g.battlefield[j]].controller == defender ==> !object_matches(
                g,
                g.battlefield[j],
                filter,
                ctx,
            )) by {
            assert forall|j: int| 0 <= j < g.battlefield.len() implies permanent_counts(
                g,
                #[trigger] g.battlefield[j],
                Some(defender),
                filter,
                ctx,
            ) == (g.objects.contains_key(g.battlefield[j])
                && g.objects[g.battlefield[j]].controller == defender && object_matches(
                g,
                g.battlefield[j],
                filter,
                ctx,
            )) by {}
        }
    }
}

/// What the conditions on the permanents say, for a source that is known: a filter is asked of
/// the source, of all permanents, or of those of the trigger's controller.
pub proof fn law_board_conditions(
    g: Game,
    controller: PlayerId,
    source: ObjectId,
    event: Option<GameEvent>,
    minimum: u32,
    filter: TargetFilter,
)
    requires
        g.objects.contains_key(source),
    ensures
        ({
            let ctx = FilterContext {
                source_id: source,
                controller: Some(g.objects[source].controller),
                trigger_object: None,
            };
            &&& condition_holds(
                g,
                TriggerCondition::SourceMatchesFilter { filter },
                controller,
                Some(source),
                event,
            ) <==> object_matches(g, source, filter, ctx)
            &&& condition_holds(
                g,
                TriggerCondition::ControlsType { filter },
                controller,
                Some(source),
                event,
            ) <==> (exists|i: int|
                0 <= i < g.battlefield.len() && object_matches(
                    g,
                    #[trigger] g.battlefield[i],
                    filter,
                    ctx,
                ))
            &&& condition_holds(
                g,
                TriggerCondition::ControlsNone { filter },
                controller,
                Some(source),
                event,
            ) <==> (forall|i: int|
                0 <= i < g.battlefield.len() ==> !object_matches(
                    g,
                    #[trigger] g.battlefield[i],
                    filter,
                    ctx,
                ))
            &&& condition_holds(
                g,
                TriggerCondition::ControlCount { minimum, filter },
                controller,
                Some(source),
                event,
            ) <==> g.battlefield.filter(
                |id: ObjectId|
                    g.objects.contains_key(id) && g.objects[id].controller == controller
                        && object_matches(g, id, filter, ctx),
            ).len() >= minimum
        }),
{
    let ctx = FilterContext {
        source_id: source,
        controller: Some(g.objects[source].controller),
        trigger_object: None,
    };
    let test = |id: ObjectId|
        g.objects.contains_key(id) && g.objects[id].controller == controller && object_matches(
            g,
            id,
            filter,
            ctx,
        );
    lemma_permanents_counted(g, controller, filter, ctx, g.battlefield.len(), test);
    assert(g.battlefield.take(g.battlefield.len() as int) =~= g.battlefield);
    assert forall|i: int| 0 <= i < g.battlefield.len() implies permanent_counts(
        g,
        #[trigger] g.battlefield[i],
        None,
        filter,
        ctx,
    ) == object_matches(g, g.battlefield[i], filter, ctx) by {}
}

proof fn lemma_permanents_counted(
    g: Game,
    controller: PlayerId,
    filter: TargetFilter,
    ctx: FilterContext,
    n: nat,
    test: spec_fn(ObjectId) -> bool,
)
    requires
        n <= g.battlefield.len(),
        forall|id: ObjectId| #[trigger]
            test(id) == permanent_counts(g, id, Some(controller), filter, ctx),
    ensures
        permanents_counted(g, controller, filter, ctx, n) == g.battlefield.take(n as int).filter(
            test,
        ).len(),
    decreases n,
{
    reveal(Seq::filter);
    if n > 0 {
        lemma_permanents_counted(g, controller, filter, ctx, (n - 1) as nat, test);
        assert(g.battlefield.take(n as int).drop_last() =~= g.battlefield.take(n - 1));
    }
}

/// A Case that is solved, or whose condition is text, is not to be solved; another one is when
/// its controller has as many permanents as it asks for.
pub proof fn law_solve_condition(
    g: Game,
    controller: PlayerId,
    id: ObjectId,
    event: Option<GameEvent>,
    filter: TargetFilter,
)
    requires
        g.objects.contains_key(id),
    ensures
        ({
            let o = g.objects[id];
            let met = condition_holds(
                g,
                TriggerCondition::SolveConditionMet,
                controller,
                Some(id),
                event,
            );
            &&& o.case_state is None ==> !met
            &&& o.case_state is Some && o.case_state->0.is_solved ==> !met
            &&& o.case_state is Some && o.case_state->0.solve_condition is Text ==> !met
            &&& o.case_state matches Some(CaseState {
                is_solved: false,
                solve_condition: SolveCondition::ObjectCount { filter, comparator, threshold },
            }) ==> (met <==> comparator.holds(
                solve_count(g, controller, filter, g.battlefield.len()) as int,
                threshold as int,
            ))
        }),
        solve_count(g, controller, filter, g.battlefield.len()) == g.battlefield.filter(
            |id: ObjectId|
                g.objects.contains_key(id) && g.objects[id].controller == controller
                    && object_matches(
                    g,
                    id,
                    filter,
                    (FilterContext {
                        source_id: id,
                        controller: Some(controller),
                        trigger_object: None,
                    }),
                ),
        ).len(),
{
    let test = |id: ObjectId|
        g.objects.contains_key(id) && g.objects[id].controller == controller && object_matches(
            g,
            id,
            filter,
            (FilterContext { source_id: id, controller: Some(controller), trigger_object: None }),
        );
    lemma_solve_count(g, controller, filter, g.battlefield.len(), test);
    assert(g.battlefield.take(g.battlefield.len() as int) =~= g.battlefield);
}

proof fn lemma_solve_count(
    g: Game,
    controller: PlayerId,
    filter: TargetFilter,
    n: nat,
    test: spec_fn(ObjectId) -> bool,
)
    requires
        n <= g.battlefield.len(),
        forall|id: ObjectId| #[trigger]
            test(id) == permanent_counts(
                g,
                id,
                Some(controller),
                filter,
                crate::filter::source_context(g, id),
            ),
    ensures
        solve_count(g, controller, filter, n) == g.battlefield.take(n as int).filter(test).len(),
    decreases n,
{
    reveal(Seq::filter);
    if n > 0 {
        lemma_solve_count(g, controller, filter, (n - 1) as nat, test);
        assert(g.battlefield.take(n as int).drop_last() =~= g.battlefield.take(n - 1));
    }
}

/// A comparison of quantities compares the two numbers, whichever way it is written.
pub proof fn law_comparison(
    g: Game,
    lhs: QuantityExpr,
    rhs: QuantityExpr,
    controller: PlayerId,
    source: ObjectId,
    event: Option<GameEvent>,
)
    ensures
        ({
            let left = quantity(g, lhs, controller, source, event);
            let right = quantity(g, rhs, controller, source, event);
            &&& condition_holds(
                g,
                TriggerCondition::QuantityComparison { lhs, comparator: Comparator::GT, rhs },
                controller,
                Some(source),
                event,
            ) <==> left > right
            &&& condition_holds(
                g,
                TriggerCondition::QuantityComparison { lhs, comparator: Comparator::LT, rhs },
                controller,
                Some(source),
                event,
            ) <==> left < right
            &&& condition_holds(
                g,
                TriggerCondition::QuantityComparison { lhs, comparator: Comparator::GE, rhs },
                controller,
                Some(source),
                event,
            ) <==> left >= right
            &&& condition_holds(
                g,
                TriggerCondition::QuantityComparison { lhs, comparator: Comparator::LE, rhs },
                controller,
                Some(source),
                event,
            ) <==> left <= right
            &&& condition_holds(
                g,
                TriggerCondition::QuantityComparison { lhs, comparator: Comparator::EQ, rhs },
                controller,
                Some(source),
                event,
            ) <==> left == right
            &&& condition_holds(
                g,
                TriggerCondition::QuantityComparison { lhs, comparator: Comparator::NE, rhs },
                controller,
                Some(source),
                event,
            ) <==> left != right
        }),
{
}

/// What each limit on a trigger says: whether it has fired this turn or this game, or so many
/// times, whose turn and which phase it is, which spell or card of the turn the event tells of,
/// and which level the source has.
pub proof fn law_constraints(
    g: Game,
    key: (ObjectId, usize),
    controller: PlayerId,
    event: GameEvent,
    n: u32,
    level: u8,
)
    ensures
        constraint_allows(g, TriggerConstraint::OncePerTurn, key, controller, event)
            <==> !g.triggers_fired_this_turn.contains(key),
        constraint_allows(g, TriggerConstraint::OncePerGame, key, controller, event)
            <==> !g.triggers_fired_this_game.contains(key),
        constraint_allows(g, TriggerConstraint::OnlyDuringYourTurn, key, controller, event)
            <==> g.active_player == controller,
        constraint_allows(g, TriggerConstraint::OnlyDuringOpponentsTurn, key, controller, event)
            <==> g.active_player != controller,
        constraint_allows(g, TriggerConstraint::OnlyDuringYourMainPhase, key, controller, event)
            <==> (g.active_player == controller && (g.phase == Phase::PreCombatMain || g.phase
            == Phase::PostCombatMain)),
        constraint_allows(g, TriggerConstraint::NthDrawThisTurn { n }, key, controller, event) <==> (
        event matches GameEvent::CardDrawn { nth_in_turn, .. } && nth_in_turn == n),
        constraint_allows(g, TriggerConstraint::AtClassLevel { level }, key, controller, event)
            <==> (g.objects.contains_key(key.0) && g.objects[key.0].class_level == Some(level)),
        constraint_allows(g, TriggerConstraint::MaxTimesPerTurn { max: n }, key, controller, event)
            <==> (if g.trigger_fire_counts_this_turn.contains_key(key) {
            g.trigger_fire_counts_this_turn[key] < n
        } else {
            0 < n
        }),
{
}

/// "The nth spell you cast": the event is a cast, and its caster's record of the turn holds exactly
/// that many spells that the filter lets through.
pub proof fn law_nth_spell(
    g: Game,
    at: int,
    key: (ObjectId, usize),
    controller: PlayerId,
    card_id: crate::ids::CardId,
    caster: PlayerId,
    object_id: ObjectId,
    n: u32,
    filter: Option<TargetFilter>,
    other: GameEvent,
)
    requires
        0 <= at <= g.spells_cast_this_turn_by_player.len(),
        forall|i: int|
            0 <= i < at ==> (#[trigger] g.spells_cast_this_turn_by_player[i]).player != caster,
        at < g.spells_cast_this_turn_by_player.len() ==> g.spells_cast_this_turn_by_player[at].player
            == caster,
    ensures
        ({
            let cast = GameEvent::SpellCast { card_id, controller: caster, object_id };
            let allowed = constraint_allows(
                g,
                TriggerConstraint::NthSpellThisTurn { n, filter },
                key,
                controller,
                cast,
            );
            &&& at == g.spells_cast_this_turn_by_player.len() ==> (allowed <==> n == 0)
            &&& at < g.spells_cast_this_turn_by_player.len()
                && g.spells_cast_this_turn_by_player[at].spells@.len() <= u32::MAX ==> (allowed
                <==> g.spells_cast_this_turn_by_player[at].spells@.filter(
                |s: SpellCastRecord| filter is None || cast_matches(g, s, filter->0, caster),
            ).len() == n)
            &&& !(other is SpellCast) ==> !constraint_allows(
                g,
                TriggerConstraint::NthSpellThisTurn { n, filter },
                key,
                controller,
                other,
            )
        }),
{
    lemma_spells_from(g.spells_cast_this_turn_by_player, caster, 0, at as nat);
    if at < g.spells_cast_this_turn_by_player.len() {
        let test = |s: SpellCastRecord| filter is None || cast_matches(g, s, filter->0, caster);
        let spells = g.spells_cast_this_turn_by_player[at].spells;
        lemma_casts_counted(g, spells, filter, caster, test);
        spells@.lemma_filter_len(test);
    }
}

} // verus!
