//! Intervening-if conditions (CR 603.4) and the limits on how often a trigger may fire.

use crate::ability::{
    CounterMatch, PlayerFilter, SolveCondition, TargetFilter, TriggerCondition, TriggerConstraint,
    TriggerDefinition,
};
use crate::combat::AttackerInfo;
use crate::events::GameEvent;
use crate::filter::{
    matches_target_filter, matches_zone_change_event_object_filter, move_matches, object_matches,
    source_context, FilterContext,
};
use crate::id_map::at;
use crate::ids::{
    holds_player, AttackTarget, ControllerRef, CoreType, ObjectId, Phase, PlayerId, TargetRef,
};
use crate::list::{list_rest, List};
use crate::object::{
    capped, CaseState, ChosenAttribute, GameObject, LkiSnapshot, Player, TributeOutcome,
};
use crate::quantity::{
    count_casts, event_player, extract_player_from_event, find_spells_cast, number_of_casts,
    opt_event, quantity, resolve_quantity_for_trigger_check, spells_cast_by,
};
use crate::speed::{has_max_speed, speed_of, MAX_SPEED};
use crate::state::{DamageRecord, Game, GameState};
use crate::text::holds_text;
use vstd::prelude::*;

verus! {

/// Checks a predicate against the controller's player state. A player who is not in the game
/// satisfies none.
pub fn player_field<F: Fn(&Player) -> bool>(state: &GameState, controller: PlayerId, f: F) -> (r:
    bool)
    requires
        forall|p: &Player| f.requires((p,)),
    ensures
        match state@.player(controller) {
            None => !r,
            Some(p) => f.ensures((&p,), r),
        },
{
    match state.get_player(controller) {
        None => false,
        Some(p) => f(p),
    }
}

/// The source of an ability, where it has one that is still known.
pub open spec fn source_object(g: Game, source: Option<ObjectId>) -> Option<GameObject> {
    match source {
        None => None,
        Some(id) => g.object(id),
    }
}

fn find_source(state: &GameState, source: Option<ObjectId>) -> (r: Option<&GameObject>)
    ensures
        match r {
            None => source_object(state@, source) is None,
            Some(o) => source_object(state@, source) == Some(*o),
        },
{
    match source {
        None => None,
        Some(id) => state.objects.get(&id),
    }
}

/// The identifier of a source, or that of no object.
pub open spec fn source_or_none(source: Option<ObjectId>) -> ObjectId {
    match source {
        None => ObjectId(0),
        Some(id) => id,
    }
}

fn id_or_none(source: Option<ObjectId>) -> (r: ObjectId)
    ensures
        r == source_or_none(source),
{
    match source {
        None => ObjectId(0),
        Some(id) => id,
    }
}

/// What was last known of the source of an ability.
pub open spec fn last_known(g: Game, source: Option<ObjectId>) -> Option<LkiSnapshot> {
    match source {
        None => None,
        Some(id) => at(g.lki_cache, id),
    }
}

/// The object whose arrival or departure a trigger watches: the one that the event moved, else
/// the trigger's own source.
pub open spec fn watched_object(source: Option<ObjectId>, event: Option<GameEvent>) -> Option<
    ObjectId,
> {
    match event {
        Some(GameEvent::ZoneChanged { object_id, .. }) => Some(object_id),
        _ => source,
    }
}

fn find_watched(source: Option<ObjectId>, event: Option<&GameEvent>) -> (r: Option<ObjectId>)
    ensures
        r == watched_object(source, opt_event(event)),
{
    match event {
        Some(GameEvent::ZoneChanged { object_id, .. }) => Some(*object_id),
        _ => source,
    }
}

/// Whether an object is a permanent of `controller`, where one is asked for, that a filter
/// lets through, where one is asked for.
pub open spec fn permanent_counts(
    g: Game,
    id: ObjectId,
    controller: Option<PlayerId>,
    filter: TargetFilter,
    ctx: FilterContext,
) -> bool {
    &&& controller is Some ==> g.controller_of(id) == controller
    &&& object_matches(g, id, filter, ctx)
}

fn check_permanent(
    state: &GameState,
    id: ObjectId,
    controller: Option<PlayerId>,
    filter: &TargetFilter,
    ctx: &FilterContext,
) -> (r: bool)
    ensures
        r == permanent_counts(state@, id, controller, *filter, *ctx),
{
    (match controller {
        None => true,
        Some(c) => match state.objects.get(&id) {
            None => false,
            Some(o) => o.controller == c,
        },
    }) && matches_target_filter(state, id, filter, ctx)
}

/// Whether some permanent counts.
pub open spec fn some_permanent(
    g: Game,
    controller: Option<PlayerId>,
    filter: TargetFilter,
    ctx: FilterContext,
) -> bool {
    exists|i: int|
        0 <= i < g.battlefield.len() && permanent_counts(
            g,
            #[trigger] g.battlefield[i],
            controller,
            filter,
            ctx,
        )
}

fn any_permanent(
    state: &GameState,
    controller: Option<PlayerId>,
    filter: &TargetFilter,
    ctx: &FilterContext,
) -> (r: bool)
    ensures
        r == some_permanent(state@, controller, *filter, *ctx),
{
    let mut i: usize = 0;
    while i < state.battlefield.len()
        invariant
            i <= state.battlefield@.len(),
            forall|j: int|
                0 <= j < i ==> !permanent_counts(
                    state@,
                    #[trigger] state@.battlefield[j],
                    controller,
                    *filter,
                    *ctx,
                ),
        decreases state.battlefield@.len() - i,
    {
        if check_permanent(state, state.battlefield[i], controller, filter, ctx) {
            assert(state@.battlefield[i as int] == state.battlefield@[i as int]);
            return true;
        }
        i = i + 1;
    }
    false
}

/// How many of the first `n` permanents count.
pub open spec fn permanents_counted(
    g: Game,
    controller: PlayerId,
    filter: TargetFilter,
    ctx: FilterContext,
    n: nat,
) -> nat
    decreases n,
{
    if n == 0 {
        0
    } else {
        permanents_counted(g, controller, filter, ctx, (n - 1) as nat) + (if permanent_counts(
            g,
            g.battlefield[n - 1],
            Some(controller),
            filter,
            ctx,
        ) {
            1nat
        } else {
            0nat
        })
    }
}

fn count_permanents_of(
    state: &GameState,
    controller: PlayerId,
    filter: &TargetFilter,
    ctx: &FilterContext,
) -> (r: usize)
    ensures
        r == permanents_counted(state@, controller, *filter, *ctx, state@.battlefield.len()),
{
    let mut count: usize = 0;
    let mut i: usize = 0;
    while i < state.battlefield.len()
        invariant
            i <= state.battlefield@.len(),
            count <= i,
            count == permanents_counted(state@, controller, *filter, *ctx, i as nat),
        decreases state.battlefield@.len() - i,
    {
        if check_permanent(state, state.battlefield[i], Some(controller), filter, ctx) {
            count = count + 1;
        }
        i = i + 1;
    }
    count
}

/// Whether the object under the given identifier is a creature that `controller` controls.
pub open spec fn is_creature_of(g: Game, id: ObjectId, controller: PlayerId) -> bool {
    match g.object(id) {
        None => false,
        Some(o) => o.controller == controller && o.is_type(CoreType::Creature),
    }
}

/// How many of the first `n` permanents are creatures that `controller` controls.
pub open spec fn creatures_counted(g: Game, controller: PlayerId, n: nat) -> nat
    decreases n,
{
    if n == 0 {
        0
    } else {
        creatures_counted(g, controller, (n - 1) as nat) + (if is_creature_of(
            g,
            g.battlefield[n - 1],
            controller,
        ) {
            1nat
        } else {
            0nat
        })
    }
}

fn count_creatures_of(state: &GameState, controller: PlayerId) -> (r: usize)
    ensures
        r == creatures_counted(state@, controller, state@.battlefield.len()),
{
    let mut count: usize = 0;
    let mut i: usize = 0;
    while i < state.battlefield.len()
        invariant
            i <= state.battlefield@.len(),
            count <= i,
            count == creatures_counted(state@, controller, i as nat),
        decreases state.battlefield@.len() - i,
    {
        let counts: bool = match state.objects.get(&state.battlefield[i]) {
            None => false,
            Some(o) => o.controller == controller && o.has_core_type(CoreType::Creature),
        };
        if counts {
            count = count + 1;
        }
        i = i + 1;
    }
    count
}

/// Whether `controller` controls one of their own commanders on the battlefield (CR 903.3).
pub open spec fn has_commander(g: Game, controller: PlayerId) -> bool {
    exists|i: int|
        0 <= i < g.battlefield.len() && is_commander_of(g, #[trigger] g.battlefield[i], controller)
}

pub open spec fn is_commander_of(g: Game, id: ObjectId, controller: PlayerId) -> bool {
    g.object(id) matches Some(o) && o.owner == controller && o.controller == controller
        && o.is_commander
}

fn find_commander(state: &GameState, controller: PlayerId) -> (r: bool)
    ensures
        r == has_commander(state@, controller),
{
    let mut i: usize = 0;
    while i < state.battlefield.len()
        invariant
            i <= state.battlefield@.len(),
            forall|j: int|
                0 <= j < i ==> !is_commander_of(
                    state@,
                    #[trigger] state@.battlefield[j],
                    controller,
                ),
        decreases state.battlefield@.len() - i,
    {
        let found: bool = match state.objects.get(&state.battlefield[i]) {
            None => false,
            Some(o) => o.owner == controller && o.controller == controller && o.is_commander,
        };
        if found {
            assert(is_commander_of(state@, state@.battlefield[i as int], controller));
            return true;
        }
        i = i + 1;
    }
    false
}

/// How many attackers other than `source` are controlled by `controller`.
pub open spec fn co_attackers(
    g: Game,
    attackers: List<AttackerInfo>,
    source: ObjectId,
    controller: PlayerId,
) -> nat
    decreases attackers,
{
    match attackers.node {
        None => 0,
        Some(n) => (if n.item.object_id != source && g.controller_of(n.item.object_id) == Some(
            controller,
        ) {
            1nat
        } else {
            0nat
        }) + co_attackers(g, n.rest, source, controller),
    }
}

fn count_co_attackers(
    state: &GameState,
    attackers: &List<AttackerInfo>,
    source: ObjectId,
    controller: PlayerId,
) -> (r: u32)
    ensures
        r == capped(co_attackers(state@, *attackers, source, controller)),
    decreases attackers,
{
    match &attackers.node {
        None => 0,
        Some(n) => {
            let rest: u32 = count_co_attackers(state, &n.rest, source, controller);
            let counts: bool = n.item.object_id != source && match state.objects.get(
                &n.item.object_id,
            ) {
                None => false,
                Some(o) => o.controller == controller,
            };
            if counts && rest < u32::MAX {
                rest + 1
            } else {
                rest
            }
        },
    }
}

/// Whether an attacker's controller stands to the trigger's controller as `scope` asks.
/// A scope other than "you" and "an opponent" lets every known attacker count.
pub open spec fn attacker_in_scope(
    g: Game,
    id: ObjectId,
    scope: ControllerRef,
    controller: PlayerId,
) -> bool {
    match g.object(id) {
        None => false,
        Some(o) => match scope {
            ControllerRef::You => o.controller == controller,
            ControllerRef::Opponent => o.controller != controller,
            ControllerRef::Any => true,
        },
    }
}

pub open spec fn attackers_in_scope(
    g: Game,
    ids: List<ObjectId>,
    scope: ControllerRef,
    controller: PlayerId,
) -> nat
    decreases ids,
{
    match ids.node {
        None => 0,
        Some(n) => (if attacker_in_scope(g, *n.item, scope, controller) {
            1nat
        } else {
            0nat
        }) + attackers_in_scope(g, n.rest, scope, controller),
    }
}

fn count_attackers_in_scope(
    state: &GameState,
    ids: &List<ObjectId>,
    scope: ControllerRef,
    controller: PlayerId,
) -> (r: u32)
    ensures
        r == capped(attackers_in_scope(state@, *ids, scope, controller)),
    decreases ids,
{
    match &ids.node {
        None => 0,
        Some(n) => {
            let rest: u32 = count_attackers_in_scope(state, &n.rest, scope, controller);
            let counts: bool = match state.objects.get(&n.item) {
                None => false,
                Some(o) => match scope {
                    ControllerRef::You => o.controller == controller,
                    ControllerRef::Opponent => o.controller != controller,
                    ControllerRef::Any => true,
                },
            };
            if counts && rest < u32::MAX {
                rest + 1
            } else {
                rest
            }
        },
    }
}

/// Whether an attacker of another player attacks `controller` directly (CR 506.2).
pub open spec fn attacked_by_others(
    g: Game,
    attacks: List<(ObjectId, AttackTarget)>,
    controller: PlayerId,
) -> bool
    decreases attacks,
{
    match attacks.node {
        None => false,
        Some(n) => (n.item.1 == AttackTarget::Player(controller) && g.object(n.item.0) is Some
            && g.controller_of(n.item.0) != Some(controller)) || attacked_by_others(
            g,
            n.rest,
            controller,
        ),
    }
}

fn find_attack_by_others(
    state: &GameState,
    attacks: &List<(ObjectId, AttackTarget)>,
    controller: PlayerId,
) -> (r: bool)
    ensures
        r == attacked_by_others(state@, *attacks, controller),
    decreases attacks,
{
    match &attacks.node {
        None => false,
        Some(n) => (n.item.1 == AttackTarget::Player(controller) && match state.objects.get(
            &n.item.0,
        ) {
            None => false,
            Some(o) => o.controller != controller,
        }) || find_attack_by_others(state, &n.rest, controller),
    }
}

pub open spec fn attacks_now(attackers: List<AttackerInfo>, id: ObjectId) -> bool
    decreases attackers,
{
    match attackers.node {
        None => false,
        Some(n) => n.item.object_id == id || attacks_now(n.rest, id),
    }
}

fn is_attacker(attackers: &List<AttackerInfo>, id: ObjectId) -> (r: bool)
    ensures
        r == attacks_now(*attackers, id),
    decreases attackers,
{
    match &attackers.node {
        None => false,
        Some(n) => n.item.object_id == id || is_attacker(&n.rest, id),
    }
}

/// Whether no defending player controls a permanent that a filter lets through.
pub open spec fn defenders_control_none(
    g: Game,
    attackers: List<AttackerInfo>,
    filter: TargetFilter,
    ctx: FilterContext,
) -> bool
    decreases attackers,
{
    match attackers.node {
        None => true,
        Some(n) => !some_permanent(g, Some(n.item.defending_player), filter, ctx)
            && defenders_control_none(g, n.rest, filter, ctx),
    }
}

fn check_defenders(
    state: &GameState,
    attackers: &List<AttackerInfo>,
    filter: &TargetFilter,
    ctx: &FilterContext,
) -> (r: bool)
    ensures
        r == defenders_control_none(state@, *attackers, *filter, *ctx),
    decreases attackers,
{
    match &attackers.node {
        None => true,
        Some(n) => !any_permanent(state, Some(n.item.defending_player), filter, ctx)
            && check_defenders(state, &n.rest, filter, ctx),
    }
}

/// Whether the records tell of damage that `source` dealt to `target`.
pub open spec fn dealt_damage_to(
    records: Seq<DamageRecord>,
    source: ObjectId,
    target: ObjectId,
) -> bool {
    exists|i: int|
        0 <= i < records.len() && (#[trigger] records[i]).source_id == source && records[i].target
            == TargetRef::Object(target)
}

fn find_damage(records: &Vec<DamageRecord>, source: ObjectId, target: ObjectId) -> (r: bool)
    ensures
        r == dealt_damage_to(records@, source, target),
{
    let mut i: usize = 0;
    while i < records.len()
        invariant
            i <= records@.len(),
            forall|j: int|
                0 <= j < i ==> !((#[trigger] records@[j]).source_id == source && records@[j].target
                    == TargetRef::Object(target)),
        decreases records@.len() - i,
    {
        if records[i].source_id == source && records[i].target == TargetRef::Object(target) {
            return true;
        }
        i = i + 1;
    }
    false
}

pub open spec fn tribute_paid(attributes: List<ChosenAttribute>) -> bool
    decreases attributes,
{
    match attributes.node {
        None => false,
        Some(n) => *n.item == ChosenAttribute::TributeOutcome(TributeOutcome::Paid) || tribute_paid(
            n.rest,
        ),
    }
}

fn find_tribute_paid(attributes: &List<ChosenAttribute>) -> (r: bool)
    ensures
        r == tribute_paid(*attributes),
    decreases attributes,
{
    match &attributes.node {
        None => false,
        Some(n) => (match &*n.item {
            ChosenAttribute::TributeOutcome(outcome) => *outcome == TributeOutcome::Paid,
            _ => false,
        }) || find_tribute_paid(&n.rest),
    }
}

/// Whether an opponent of `controller` lost life during the turn before this one.
pub open spec fn opponent_lost_life_last_turn(g: Game, controller: PlayerId) -> bool {
    exists|i: int|
        0 <= i < g.players.len() && (#[trigger] g.players[i]).id != controller
            && g.players[i].life_lost_last_turn > 0
}

fn find_opponent_lost_life(state: &GameState, controller: PlayerId) -> (r: bool)
    ensures
        r == opponent_lost_life_last_turn(state@, controller),
{
    let mut i: usize = 0;
    while i < state.players.len()
        invariant
            i <= state.players@.len(),
            forall|j: int|
                0 <= j < i ==> !((#[trigger] state@.players[j]).id != controller
                    && state@.players[j].life_lost_last_turn > 0),
        decreases state.players@.len() - i,
    {
        if state.players[i].id != controller && state.players[i].life_lost_last_turn > 0 {
            assert(state@.players[i as int].id != controller);
            return true;
        }
        i = i + 1;
    }
    false
}

/// Whether a Case is unsolved and its solve condition is met (CR 719.2). A condition that is only
/// text is never met by itself.
pub open spec fn solve_condition_met(g: Game, cs: CaseState, controller: PlayerId) -> bool {
    !cs.is_solved && match cs.solve_condition {
        SolveCondition::ObjectCount { filter, comparator, threshold } => comparator.holds(
            solve_count(g, controller, filter, g.battlefield.len()) as int,
            threshold as int,
        ),
        SolveCondition::Text { .. } => false,
    }
}

/// How many of the first `n` permanents of `controller` a filter lets through, each taken as
/// the source of the question.
pub open spec fn solve_count(g: Game, controller: PlayerId, filter: TargetFilter, n: nat) -> nat
    decreases n,
{
    if n == 0 {
        0
    } else {
        let id = g.battlefield[n - 1];
        solve_count(g, controller, filter, (n - 1) as nat) + (if permanent_counts(
            g,
            id,
            Some(controller),
            filter,
            source_context(g, id),
        ) {
            1nat
        } else {
            0nat
        })
    }
}

/// CR 719.2: Evaluate a Case's solve condition against the current game state.
/// Returns true when the Case is unsolved and its condition is currently met.
pub fn evaluate_solve_condition(
    state: &GameState,
    cs: &CaseState,
    controller: PlayerId,
) -> (r: bool)
    ensures
        r == solve_condition_met(state@, *cs, controller),
{
    if cs.is_solved {
        return false;
    }
    match &cs.solve_condition {
        SolveCondition::ObjectCount { filter, comparator, threshold } => {
            let mut count: usize = 0;
            let mut i: usize = 0;
            while i < state.battlefield.len()
                invariant
                    i <= state.battlefield@.len(),
                    count <= i,
                    count == solve_count(state@, controller, *filter, i as nat),
                decreases state.battlefield@.len() - i,
            {
                let id = state.battlefield[i];
                let ctx = FilterContext::from_source(state, id);
                if check_permanent(state, id, Some(controller), filter, &ctx) {
                    count = count + 1;
                }
                i = i + 1;
            }
            comparator.evaluate(count as i128, *threshold as i128)
        },
        SolveCondition::Text { .. } => false,
    }
}

/// Whose turn "that player's turn" asks about: a set of players, of which the active player
/// must be one. Player filters that no turn belongs to hold of no turn.
pub open spec fn turn_of(
    g: Game,
    player: PlayerFilter,
    controller: PlayerId,
    event: Option<GameEvent>,
) -> bool {
    match player {
        PlayerFilter::Controller => g.active_player == controller,
        PlayerFilter::Opponent => g.active_player != controller,
        PlayerFilter::TriggeringPlayer => match event {
            None => false,
            Some(e) => event_player(e) == Some(g.active_player),
        },
        _ => false,
    }
}

/// What a condition on the state of a trigger's controller says. A condition of another kind
/// does not hold.
pub open spec fn player_condition(
    g: Game,
    condition: TriggerCondition,
    controller: PlayerId,
) -> bool {
    match condition {
        TriggerCondition::GainedLife { minimum } => g.player(controller) matches Some(p)
            && p.life_gained_this_turn >= minimum,
        TriggerCondition::LostLife => g.player(controller) matches Some(p) && p.life_lost_this_turn
            > 0,
        TriggerCondition::Descended => g.player(controller) matches Some(p)
            && p.descended_this_turn,
        TriggerCondition::LifeTotalGE { minimum } => g.player(controller) matches Some(p) && p.life
            >= minimum,
        TriggerCondition::AttackedThisTurn => g.players_attacked_this_turn.contains(controller),
        TriggerCondition::CastSpellThisTurn { filter } => spells_cast_by(
            g,
            controller,
        ) matches Some(spells) && count_casts(g, spells, filter, controller) > 0,
        TriggerCondition::HasMaxSpeed => speed_of(g, controller) >= MAX_SPEED,
        TriggerCondition::CounterAddedThisTurn => g.counter_added_this_turn.contains(controller),
        TriggerCondition::LostLifeLastTurn => opponent_lost_life_last_turn(g, controller),
        TriggerCondition::IsMonarch => g.monarch == Some(controller),
        TriggerCondition::HasCityBlessing => g.city_blessing.contains(controller),
        TriggerCondition::CompletedDungeon { specific } => at(
            g.dungeon_progress,
            controller,
        ) matches Some(p) && match specific {
            None => p.completed@.len() > 0,
            Some(dungeon) => p.completed@.contains(dungeon),
        },
        TriggerCondition::ControlsCommander => has_commander(g, controller),
        TriggerCondition::ControlCreatures { minimum } => creatures_counted(
            g,
            controller,
            g.battlefield.len(),
        ) >= minimum,
        _ => false,
    }
}

fn check_player_condition(
    state: &GameState,
    condition: &TriggerCondition,
    controller: PlayerId,
) -> (r: bool)
    ensures
        r == player_condition(state@, *condition, controller),
{
    match condition {
        TriggerCondition::GainedLife { minimum } => {
            let least: u32 = *minimum;
            let gained = |p: &Player| -> (b: bool)
                ensures b == (p.life_gained_this_turn >= least)
            { p.life_gained_this_turn >= least };
            player_field(state, controller, gained)
        },
        TriggerCondition::LostLife => {
            let lost = |p: &Player| -> (b: bool)
                ensures b == (p.life_lost_this_turn > 0)
            { p.life_lost_this_turn > 0 };
            player_field(state, controller, lost)
        },
        TriggerCondition::Descended => {
            let descended = |p: &Player| -> (b: bool)
                ensures b == p.descended_this_turn
            { p.descended_this_turn };
            player_field(state, controller, descended)
        },
        TriggerCondition::LifeTotalGE { minimum } => {
            let least: i32 = *minimum;
            let has_life = |p: &Player| -> (b: bool)
                ensures b == (p.life >= least)
            { p.life >= least };
            player_field(state, controller, has_life)
        },
        // CR 508.1a: "if you attacked this turn".
        TriggerCondition::AttackedThisTurn => holds_player(
            &state.players_attacked_this_turn,
            controller,
        ),
        // CR 603.4: "if you cast a [type] spell this turn".
        TriggerCondition::CastSpellThisTurn { filter } => match find_spells_cast(
            state,
            controller,
        ) {
            None => false,
            Some(spells) => number_of_casts(state, spells, filter, controller) > 0,
        },
        TriggerCondition::HasMaxSpeed => has_max_speed(state, controller),
        // CR 122.1: "if you put a counter on a permanent this turn"
        TriggerCondition::CounterAddedThisTurn => holds_player(
            &state.counter_added_this_turn,
            controller,
        ),
        TriggerCondition::LostLifeLastTurn => find_opponent_lost_life(state, controller),
        // CR 725.1: True when the controller is the monarch.
        TriggerCondition::IsMonarch => state.monarch == Some(controller),
        // CR 702.131a: True when the controller has the city's blessing.
        TriggerCondition::HasCityBlessing => holds_player(&state.city_blessing, controller),
        // CR 309.7: True when the controller has completed a dungeon.
        TriggerCondition::CompletedDungeon { specific } => match state.dungeon_progress.get(
            &controller,
        ) {
            None => false,
            Some(p) => match specific {
                None => !p.completed.is_empty(),
                Some(dungeon) => p.completed.contains(dungeon),
            },
        },
        // CR 903.3: True when the controller controls at least one of their commanders.
        TriggerCondition::ControlsCommander => find_commander(state, controller),
        TriggerCondition::ControlCreatures { minimum } => count_creatures_of(state, controller) as u64
            >= *minimum as u64,
        _ => false,
    }
}

/// What a condition on the state of a trigger's source says. A condition of another kind does
/// not hold.
pub open spec fn source_condition(
    g: Game,
    condition: TriggerCondition,
    source: Option<ObjectId>,
) -> bool {
    let object = source_object(g, source);
    match condition {
        TriggerCondition::SourceEnteredThisTurn => object matches Some(o)
            && o.entered_battlefield_turn == Some(g.turn_number),
        TriggerCondition::EchoDue => object matches Some(o) && o.echo_due,
        TriggerCondition::ClassLevelGE { level } => object matches Some(o)
            && o.class_level matches Some(current) && current >= level,
        TriggerCondition::CastVariantPaid { variant } => object matches Some(o)
            && o.cast_variant_paid == Some((variant, g.turn_number)),
        TriggerCondition::WasType { card_type } => last_known(
            g,
            source,
        ) matches Some(lki) && lki.card_types.core_types@.contains(card_type),
        TriggerCondition::SourceIsTapped => object matches Some(o) && o.tapped,
        TriggerCondition::SourceIsTransformed => object matches Some(o) && o.transformed,
        TriggerCondition::SourceIsFaceUp => object matches Some(o) && !o.face_down,
        TriggerCondition::SourceIsFaceDown => object matches Some(o) && o.face_down,
        TriggerCondition::SourceInZone { zone } => object matches Some(o) && o.zone == zone,
        TriggerCondition::TributeNotPaid => object matches Some(o) ==> !tribute_paid(
            o.chosen_attributes,
        ),
        TriggerCondition::CastTimingPermission { permission } => object matches Some(o)
            && o.cast_timing_permission == Some((permission, g.turn_number)),
        TriggerCondition::ManaColorSpent { color, minimum } => object matches Some(o)
            && o.colors_spent_to_cast.of(color) >= minimum,
        TriggerCondition::HadCounters { counter_type } => last_known(
            g,
            source,
        ) matches Some(lki) && match counter_type {
            Some(ct) => lki.counters.count(ct) > 0,
            None => lki.counters.total() > 0,
        },
        TriggerCondition::SourceIsRenowned => object matches Some(o) && o.is_renowned,
        TriggerCondition::HasCounters { counters, minimum, maximum } => object matches Some(o) && {
            let count = match counters {
                CounterMatch::Any => capped(o.counters.total()),
                CounterMatch::OfType(ct) => o.counters.count(ct),
            };
            count >= minimum && (maximum is None || count <= maximum->0)
        },
        _ => false,
    }
}

fn check_source_condition(
    state: &GameState,
    condition: &TriggerCondition,
    source_id: Option<ObjectId>,
) -> (r: bool)
    ensures
        r == source_condition(state@, *condition, source_id),
{
    match condition {
        TriggerCondition::SourceEnteredThisTurn => match find_source(state, source_id) {
            None => false,
            Some(o) => o.entered_battlefield_turn == Some(state.turn_number),
        },
        TriggerCondition::EchoDue => match find_source(state, source_id) {
            None => false,
            Some(o) => o.echo_due,
        },
        // CR 716.2a: True when the source Class is at or above the specified level.
        TriggerCondition::ClassLevelGE { level } => match find_source(state, source_id) {
            None => false,
            Some(o) => match o.class_level {
                None => false,
                Some(current) => current >= *level,
            },
        },
        // CR 702.49 + CR 702.190a + CR 603.4: "if its sneak/ninjutsu cost was paid this turn".
        TriggerCondition::CastVariantPaid { variant } => match find_source(state, source_id) {
            None => false,
            Some(o) => match o.cast_variant_paid {
                None => false,
                Some((paid, turn)) => paid == *variant && turn == state.turn_number,
            },
        },
        // CR 400.7 + CR 603.10: "if it was a [type]" asks what was last known of the source.
        TriggerCondition::WasType { card_type } => match source_id {
            None => false,
            Some(id) => match state.lki_cache.get(&id) {
                None => false,
                Some(lki) => lki.card_types.core_types.contains(card_type),
            },
        },
        // CR 611.2b: True when the trigger source is tapped.
        TriggerCondition::SourceIsTapped => match find_source(state, source_id) {
            None => false,
            Some(o) => o.tapped,
        },
        // CR 701.27g: True when the trigger source is a transformed permanent.
        TriggerCondition::SourceIsTransformed => match find_source(state, source_id) {
            None => false,
            Some(o) => o.transformed,
        },
        // CR 708.2: True when the trigger source is face-up.
        TriggerCondition::SourceIsFaceUp => match find_source(state, source_id) {
            None => false,
            Some(o) => !o.face_down,
        },
        // CR 708.2: True when the trigger source is face-down.
        TriggerCondition::SourceIsFaceDown => match find_source(state, source_id) {
            None => false,
            Some(o) => o.face_down,
        },
        // CR 113.6b: True when the trigger source is in the specified zone.
        TriggerCondition::SourceInZone { zone } => match find_source(state, source_id) {
            None => false,
            Some(o) => o.zone == *zone,
        },
        // CR 702.104b: an explicit `Paid` outcome alone suppresses the trigger.
        TriggerCondition::TributeNotPaid => match find_source(state, source_id) {
            None => true,
            Some(o) => !find_tribute_paid(&o.chosen_attributes),
        },
        // CR 601.3b + CR 702.8a: cast using the specified timing permission this turn.
        TriggerCondition::CastTimingPermission { permission } => match find_source(
            state,
            source_id,
        ) {
            None => false,
            Some(o) => match o.cast_timing_permission {
                None => false,
                Some((used, turn)) => used == *permission && turn == state.turn_number,
            },
        },
        // CR 207.2c: Adamant — at least N mana of a specific color was spent to cast.
        TriggerCondition::ManaColorSpent { color, minimum } => match find_source(
            state,
            source_id,
        ) {
            None => false,
            Some(o) => o.colors_spent_to_cast.get(*color) >= *minimum,
        },
        // CR 400.7: "if it had counters on it".
        TriggerCondition::HadCounters { counter_type } => match source_id {
            None => false,
            Some(id) => match state.lki_cache.get(&id) {
                None => false,
                Some(lki) => match counter_type {
                    Some(ct) => lki.counters.get(*ct) > 0,
                    None => lki.counters.sum() > 0,
                },
            },
        },
        // CR 702.112a: True when the source permanent has been made renowned.
        TriggerCondition::SourceIsRenowned => match find_source(state, source_id) {
            None => false,
            Some(o) => o.is_renowned,
        },
        // CR 711.2a + CR 711.2b: how many counters the source has, of one type or of any.
        TriggerCondition::HasCounters { counters, minimum, maximum } => match find_source(
            state,
            source_id,
        ) {
            None => false,
            Some(o) => {
                let count: u32 = match counters {
                    CounterMatch::Any => o.counters.sum(),
                    CounterMatch::OfType(ct) => o.counters.get(*ct),
                };
                count >= *minimum && match maximum {
                    None => true,
                    Some(max) => count <= *max,
                }
            },
        },
        _ => false,
    }
}

/// What a condition on the event that a trigger fires on says. A condition of another kind does
/// not hold.
pub open spec fn event_condition(
    g: Game,
    condition: TriggerCondition,
    controller: PlayerId,
    source: Option<ObjectId>,
    event: Option<GameEvent>,
) -> bool {
    let ctx = source_context(g, source_or_none(source));
    match condition {
        TriggerCondition::AttackersDeclaredMin { scope, minimum } => match event {
            Some(GameEvent::AttackersDeclared { attacker_ids, .. }) => attackers_in_scope(
                g,
                attacker_ids,
                scope,
                controller,
            ) >= minimum,
            _ => false,
        },
        TriggerCondition::NoneOfAttackersTargetedYou => match event {
            Some(GameEvent::AttackersDeclared { attacks, .. }) => !attacked_by_others(
                g,
                attacks,
                controller,
            ),
            _ => false,
        },
        TriggerCondition::WasCast => source_object(
            g,
            watched_object(source, event),
        ) matches Some(o) && o.cast_from_zone is Some,
        TriggerCondition::AdditionalCostPaid { variant, kicker_cost, min_count } => {
            &&& kicker_cost is None || variant is Some
            &&& source_object(g, watched_object(source, event)) matches Some(o)
            &&& match variant {
                Some(kicker) => o.kickers_paid@.contains(kicker),
                None => o.kickers_paid@.len() >= min_count,
            }
        },
        TriggerCondition::DealtDamageBySourceThisTurn => {
            let dying = match event {
                Some(GameEvent::CreatureDestroyed { object_id }) => Some(object_id),
                Some(GameEvent::ZoneChanged { object_id, .. }) => Some(object_id),
                _ => None,
            };
            source is Some && dying is Some && dealt_damage_to(
                g.damage_dealt_this_turn,
                source->0,
                dying->0,
            )
        },
        TriggerCondition::ZoneChangeObjectMatchesFilter { origin, destination, filter } =>
            event is Some && move_matches(g, event->0, origin, destination, filter, ctx),
        TriggerCondition::DuringPlayersTurn { player } => turn_of(g, player, controller, event),
        TriggerCondition::ManaSpentCondition { text } => source_object(
            g,
            watched_object(source, event),
        ) matches Some(o) && !o.mana_spent_to_cast && holds_text(text@, "no mana was spent"@),
        TriggerCondition::ExceptFirstDrawInDrawStep => match event {
            Some(GameEvent::CardDrawn { player_id, nth_in_step, .. }) => !(g.phase == Phase::Draw
                && player_id == g.active_player && nth_in_step == 1),
            _ => false,
        },
        _ => false,
    }
}

fn check_event_condition(
    state: &GameState,
    condition: &TriggerCondition,
    controller: PlayerId,
    source_id: Option<ObjectId>,
    trigger_event: Option<&GameEvent>,
) -> (r: bool)
    ensures
        r == event_condition(state@, *condition, controller, source_id, opt_event(trigger_event)),
{
    match condition {
        // CR 508.1 + CR 603.2c: Count attackers in the triggering AttackersDeclared
        // batch whose controller matches `scope` relative to the trigger controller.
        TriggerCondition::AttackersDeclaredMin { scope, minimum } => match trigger_event {
            Some(GameEvent::AttackersDeclared { attacker_ids, .. }) => count_attackers_in_scope(
                state,
                attacker_ids,
                *scope,
                controller,
            ) >= *minimum,
            _ => false,
        },
        // CR 506.2 + CR 508.1b + CR 603.4: "if none of those creatures attacked you".
        TriggerCondition::NoneOfAttackersTargetedYou => match trigger_event {
            Some(GameEvent::AttackersDeclared { attacks, .. }) => !find_attack_by_others(
                state,
                attacks,
                controller,
            ),
            _ => false,
        },
        // CR 601.2: "if you cast it" asks of the object that the event moved, falling back to
        // the source for triggers that speak of themselves.
        TriggerCondition::WasCast => match find_source(
            state,
            find_watched(source_id, trigger_event),
        ) {
            None => false,
            Some(o) => o.cast_from_zone.is_some(),
        },
        // CR 603.4 + CR 702.33d-f: "if it was kicked" intervening-if.
        TriggerCondition::AdditionalCostPaid { variant, kicker_cost, min_count } => {
            if kicker_cost.is_some() && variant.is_none() {
                false
            } else {
                match find_source(state, find_watched(source_id, trigger_event)) {
                    None => false,
                    Some(o) => match variant {
                        Some(kicker) => o.kickers_paid.contains(kicker),
                        None => o.kickers_paid.len() as u64 >= *min_count as u64,
                    },
                }
            }
        },
        // CR 700.4 + CR 120.1: True when the dying creature was dealt damage by the
        // trigger source this turn.
        TriggerCondition::DealtDamageBySourceThisTurn => {
            let dying = match trigger_event {
                Some(GameEvent::CreatureDestroyed { object_id }) => Some(*object_id),
                Some(GameEvent::ZoneChanged { object_id, .. }) => Some(*object_id),
                _ => None,
            };
            match (source_id, dying) {
                (Some(src), Some(subject)) => find_damage(
                    &state.damage_dealt_this_turn,
                    src,
                    subject,
                ),
                _ => false,
            }
        },
        // CR 603.4 + CR 603.6 + CR 603.10: the subject is the object that changed zones.
        TriggerCondition::ZoneChangeObjectMatchesFilter { origin, destination, filter } =>
            match trigger_event {
                None => false,
                Some(event) => matches_zone_change_event_object_filter(
                    state,
                    event,
                    *origin,
                    *destination,
                    filter,
                    &FilterContext::from_source(state, id_or_none(source_id)),
                ),
            },
        // CR 603.4 + CR 102.1: "if it's <player>'s turn".
        TriggerCondition::DuringPlayersTurn { player } => match player {
            PlayerFilter::Controller => state.active_player == controller,
            PlayerFilter::Opponent => state.active_player != controller,
            PlayerFilter::TriggeringPlayer => match trigger_event {
                None => false,
                Some(e) => match extract_player_from_event(e) {
                    None => false,
                    Some(p) => p == state.active_player,
                },
            },
            PlayerFilter::DefendingPlayer
            | PlayerFilter::OpponentLostLife
            | PlayerFilter::OpponentGainedLife
            | PlayerFilter::All
            | PlayerFilter::HighestSpeed
            | PlayerFilter::ZoneChangedThisWay
            | PlayerFilter::PerformedActionThisWay
            | PlayerFilter::VotedFor
            | PlayerFilter::OwnersOfCardsExiledBySource
            | PlayerFilter::OpponentOtherThanTriggering => false,
        },
        // CR 601.2h: "if no mana was spent to cast it/them". Other conditions on the mana
        // spent are not known and do not hold.
        TriggerCondition::ManaSpentCondition { text } => text.mentions("no mana was spent")
            && match find_source(state, find_watched(source_id, trigger_event)) {
            None => false,
            Some(o) => !o.mana_spent_to_cast,
        },
        // CR 121.1 + CR 504.1 + CR 603.4: "except the first one [you|they] draw in each of
        // [your|their] draw steps". Any other event does not satisfy it.
        TriggerCondition::ExceptFirstDrawInDrawStep => match trigger_event {
            Some(GameEvent::CardDrawn { player_id, nth_in_step, .. }) => !(state.phase
                == Phase::Draw && *player_id == state.active_player && *nth_in_step == 1),
            _ => false,
        },
        _ => false,
    }
}

/// What a condition on the board, the combat or the turn says. A condition of another kind does
/// not hold.
pub open spec fn game_condition(
    g: Game,
    condition: TriggerCondition,
    controller: PlayerId,
    source: Option<ObjectId>,
    event: Option<GameEvent>,
) -> bool {
    let object = source_object(g, source);
    let ctx = source_context(g, source_or_none(source));
    match condition {
        TriggerCondition::MinCoAttackers { minimum } => g.combat matches Some(combat)
            && co_attackers(g, combat.attackers, source_or_none(source), controller) >= minimum,
        TriggerCondition::SolveConditionMet => object matches Some(o) && o.case_state matches Some(
            cs,
        ) && solve_condition_met(g, cs, controller),
        TriggerCondition::SourceIsAttacking => g.combat matches Some(combat) && attacks_now(
            combat.attackers,
            source_or_none(source),
        ),
        TriggerCondition::SourceMatchesFilter { filter } => source is Some && object_matches(
            g,
            source->0,
            filter,
            ctx,
        ),
        TriggerCondition::ControlsType { filter } => some_permanent(g, None, filter, ctx),
        TriggerCondition::ControlsNone { filter } => !some_permanent(g, None, filter, ctx),
        TriggerCondition::NoSpellsCastLastTurn => g.spells_cast_last_turn is None
            || g.spells_cast_last_turn == Some(0u32),
        TriggerCondition::TwoOrMoreSpellsCastLastTurn => g.spells_cast_last_turn matches Some(n)
            && n >= 2,
        TriggerCondition::ControlCount { minimum, filter } => permanents_counted(
            g,
            controller,
            filter,
            ctx,
            g.battlefield.len(),
        ) >= minimum,
        TriggerCondition::FirstCombatPhaseOfTurn => g.combat_phases_started_this_turn == 1,
        TriggerCondition::QuantityComparison { lhs, comparator, rhs } => comparator.holds(
            quantity(g, lhs, controller, source_or_none(source), event),
            quantity(g, rhs, controller, source_or_none(source), event),
        ),
        TriggerCondition::DefendingPlayerControlsNone { filter } => g.combat matches Some(combat)
            && defenders_control_none(g, combat.attackers, filter, ctx),
        TriggerCondition::CastDuringPhase { phases } => phases@.contains(g.phase),
        _ => false,
    }
}

fn check_game_condition(
    state: &GameState,
    condition: &TriggerCondition,
    controller: PlayerId,
    source_id: Option<ObjectId>,
    trigger_event: Option<&GameEvent>,
) -> (r: bool)
    ensures
        r == game_condition(state@, *condition, controller, source_id, opt_event(trigger_event)),
{
    match condition {
        // CR 508.1a: Count co-attackers excluding the source creature.
        TriggerCondition::MinCoAttackers { minimum } => match &state.combat {
            None => false,
            Some(combat) => count_co_attackers(
                state,
                &combat.attackers,
                id_or_none(source_id),
                controller,
            ) >= *minimum,
        },
        // CR 719.2: True when the source Case is unsolved and its solve condition is met.
        TriggerCondition::SolveConditionMet => match find_source(state, source_id) {
            None => false,
            Some(o) => match &o.case_state {
                None => false,
                Some(cs) => evaluate_solve_condition(state, cs, controller),
            },
        },
        // CR 508.1: "if it's attacking".
        TriggerCondition::SourceIsAttacking => match &state.combat {
            None => false,
            Some(combat) => is_attacker(&combat.attackers, id_or_none(source_id)),
        },
        // CR 603.4 + CR 611.2b: Source-bound intervening-if predicate.
        TriggerCondition::SourceMatchesFilter { filter } => match source_id {
            None => false,
            Some(id) => matches_target_filter(
                state,
                id,
                filter,
                &FilterContext::from_source(state, id),
            ),
        },
        TriggerCondition::ControlsType { filter } => any_permanent(
            state,
            None,
            filter,
            &FilterContext::from_source(state, id_or_none(source_id)),
        ),
        // CR 603.8: "when you control no [type]".
        TriggerCondition::ControlsNone { filter } => !any_permanent(
            state,
            None,
            filter,
            &FilterContext::from_source(state, id_or_none(source_id)),
        ),
        TriggerCondition::NoSpellsCastLastTurn => match state.spells_cast_last_turn {
            None => true,
            Some(n) => n == 0,
        },
        TriggerCondition::TwoOrMoreSpellsCastLastTurn => match state.spells_cast_last_turn {
            None => false,
            Some(n) => n >= 2,
        },
        // CR 603.4: "if you control N or more [type]".
        TriggerCondition::ControlCount { minimum, filter } => count_permanents_of(
            state,
            controller,
            filter,
            &FilterContext::from_source(state, id_or_none(source_id)),
        ) as u64 >= *minimum as u64,
        TriggerCondition::FirstCombatPhaseOfTurn => state.combat_phases_started_this_turn == 1,
        TriggerCondition::QuantityComparison { lhs, comparator, rhs } => {
            let source = id_or_none(source_id);
            let left: i128 = resolve_quantity_for_trigger_check(
                state,
                lhs,
                controller,
                source,
                trigger_event,
            );
            let right: i128 = resolve_quantity_for_trigger_check(
                state,
                rhs,
                controller,
                source,
                trigger_event,
            );
            comparator.evaluate(left, right)
        },
        // CR 509.1a + CR 603.4: "if defending player controls no [type]".
        TriggerCondition::DefendingPlayerControlsNone { filter } => match &state.combat {
            None => false,
            Some(combat) => check_defenders(
                state,
                &combat.attackers,
                filter,
                &FilterContext::from_source(state, id_or_none(source_id)),
            ),
        },
        // CR 207.2c + CR 601.2: cast during the configured phase set.
        TriggerCondition::CastDuringPhase { phases } => phases.contains(&state.phase),
        _ => false,
    }
}

/// What a condition says of a game: whether it lets a trigger of `controller`, with the given
/// source, fire on the given event.
pub open spec fn condition_holds(
    g: Game,
    condition: TriggerCondition,
    controller: PlayerId,
    source: Option<ObjectId>,
    event: Option<GameEvent>,
) -> bool
    decreases condition,
{
    match condition {
        TriggerCondition::GainedLife { .. }
        | TriggerCondition::LostLife
        | TriggerCondition::Descended
        | TriggerCondition::LifeTotalGE { .. }
        | TriggerCondition::AttackedThisTurn
        | TriggerCondition::CastSpellThisTurn { .. }
        | TriggerCondition::HasMaxSpeed
        | TriggerCondition::CounterAddedThisTurn
        | TriggerCondition::LostLifeLastTurn
        | TriggerCondition::IsMonarch
        | TriggerCondition::HasCityBlessing
        | TriggerCondition::CompletedDungeon { .. }
        | TriggerCondition::ControlsCommander
        | TriggerCondition::ControlCreatures { .. } => player_condition(g, condition, controller),
        TriggerCondition::SourceEnteredThisTurn
        | TriggerCondition::EchoDue
        | TriggerCondition::ClassLevelGE { .. }
        | TriggerCondition::CastVariantPaid { .. }
        | TriggerCondition::WasType { .. }
        | TriggerCondition::SourceIsTapped
        | TriggerCondition::SourceIsTransformed
        | TriggerCondition::SourceIsFaceUp
        | TriggerCondition::SourceIsFaceDown
        | TriggerCondition::SourceInZone { .. }
        | TriggerCondition::TributeNotPaid
        | TriggerCondition::CastTimingPermission { .. }
        | TriggerCondition::ManaColorSpent { .. }
        | TriggerCondition::HadCounters { .. }
        | TriggerCondition::SourceIsRenowned
        | TriggerCondition::HasCounters { .. } => source_condition(g, condition, source),
        TriggerCondition::AttackersDeclaredMin { .. }
        | TriggerCondition::NoneOfAttackersTargetedYou
        | TriggerCondition::WasCast
        | TriggerCondition::AdditionalCostPaid { .. }
        | TriggerCondition::DealtDamageBySourceThisTurn
        | TriggerCondition::ZoneChangeObjectMatchesFilter { .. }
        | TriggerCondition::DuringPlayersTurn { .. }
        | TriggerCondition::ManaSpentCondition { .. }
        | TriggerCondition::ExceptFirstDrawInDrawStep => event_condition(
            g,
            condition,
            controller,
            source,
            event,
        ),
        TriggerCondition::MinCoAttackers { .. }
        | TriggerCondition::SolveConditionMet
        | TriggerCondition::SourceIsAttacking
        | TriggerCondition::SourceMatchesFilter { .. }
        | TriggerCondition::ControlsType { .. }
        | TriggerCondition::ControlsNone { .. }
        | TriggerCondition::NoSpellsCastLastTurn
        | TriggerCondition::TwoOrMoreSpellsCastLastTurn
        | TriggerCondition::ControlCount { .. }
        | TriggerCondition::FirstCombatPhaseOfTurn
        | TriggerCondition::QuantityComparison { .. }
        | TriggerCondition::DefendingPlayerControlsNone { .. }
        | TriggerCondition::CastDuringPhase { .. } => game_condition(
            g,
            condition,
            controller,
            source,
            event,
        ),
        TriggerCondition::And { conditions } => all_hold(g, conditions, controller, source, event),
        TriggerCondition::Or { conditions } => some_hold(g, conditions, controller, source, event),
        TriggerCondition::Not { condition } => !condition_holds(
            g,
            *condition,
            controller,
            source,
            event,
        ),
    }
}

pub open spec fn all_hold(
    g: Game,
    conditions: List<TriggerCondition>,
    controller: PlayerId,
    source: Option<ObjectId>,
    event: Option<GameEvent>,
) -> bool
    decreases conditions,
{
    match conditions.node {
        None => true,
        Some(n) => condition_holds(g, *n.item, controller, source, event) && all_hold(
            g,
            n.rest,
            controller,
            source,
            event,
        ),
    }
}

pub open spec fn some_hold(
    g: Game,
    conditions: List<TriggerCondition>,
    controller: PlayerId,
    source: Option<ObjectId>,
    event: Option<GameEvent>,
) -> bool
    decreases conditions,
{
    match conditions.node {
        None => false,
        Some(n) => condition_holds(g, *n.item, controller, source, event) || some_hold(
            g,
            n.rest,
            controller,
            source,
            event,
        ),
    }
}

fn check_all(
    state: &GameState,
    conditions: &List<TriggerCondition>,
    controller: PlayerId,
    source_id: Option<ObjectId>,
    trigger_event: Option<&GameEvent>,
) -> (r: bool)
    ensures
        r == all_hold(state@, *conditions, controller, source_id, opt_event(trigger_event)),
    decreases conditions,
{
    match &conditions.node {
        None => true,
        Some(n) => check_trigger_condition(state, &n.item, controller, source_id, trigger_event)
            && check_all(state, &n.rest, controller, source_id, trigger_event),
    }
}

fn check_any(
    state: &GameState,
    conditions: &List<TriggerCondition>,
    controller: PlayerId,
    source_id: Option<ObjectId>,
    trigger_event: Option<&GameEvent>,
) -> (r: bool)
    ensures
        r == some_hold(state@, *conditions, controller, source_id, opt_event(trigger_event)),
    decreases conditions,
{
    match &conditions.node {
        None => false,
        Some(n) => check_trigger_condition(state, &n.item, controller, source_id, trigger_event)
            || check_any(state, &n.rest, controller, source_id, trigger_event),
    }
}

/// Check whether an intervening-if condition is satisfied.
/// Used both at fire-time and resolution-time.
///
/// Predicates check player/game state directly.
/// Combinators (`And`/`Or`/`Not`) recurse into their children.
///
/// `source_id` is required for conditions like `SolveConditionMet` that need
/// to inspect the trigger's source object (e.g., the Case's solve condition).
pub fn check_trigger_condition(
    state: &GameState,
    condition: &TriggerCondition,
    controller: PlayerId,
    source_id: Option<ObjectId>,
    trigger_event: Option<&GameEvent>,
) -> (r: bool)
    ensures
        r == condition_holds(state@, *condition, controller, source_id, opt_event(trigger_event)),
    decreases condition,
{
    match condition {
        TriggerCondition::GainedLife { .. }
        | TriggerCondition::LostLife
        | TriggerCondition::Descended
        | TriggerCondition::LifeTotalGE { .. }
        | TriggerCondition::AttackedThisTurn
        | TriggerCondition::CastSpellThisTurn { .. }
        | TriggerCondition::HasMaxSpeed
        | TriggerCondition::CounterAddedThisTurn
        | TriggerCondition::LostLifeLastTurn
        | TriggerCondition::IsMonarch
        | TriggerCondition::HasCityBlessing
        | TriggerCondition::CompletedDungeon { .. }
        | TriggerCondition::ControlsCommander
        | TriggerCondition::ControlCreatures { .. } => check_player_condition(
            state,
            condition,
            controller,
        ),
        TriggerCondition::SourceEnteredThisTurn
        | TriggerCondition::EchoDue
        | TriggerCondition::ClassLevelGE { .. }
        | TriggerCondition::CastVariantPaid { .. }
        | TriggerCondition::WasType { .. }
        | TriggerCondition::SourceIsTapped
        | TriggerCondition::SourceIsTransformed
        | TriggerCondition::SourceIsFaceUp
        | TriggerCondition::SourceIsFaceDown
        | TriggerCondition::SourceInZone { .. }
        | TriggerCondition::TributeNotPaid
        | TriggerCondition::CastTimingPermission { .. }
        | TriggerCondition::ManaColorSpent { .. }
        | TriggerCondition::HadCounters { .. }
        | TriggerCondition::SourceIsRenowned
        | TriggerCondition::HasCounters { .. } => check_source_condition(
            state,
            condition,
            source_id,
        ),
        TriggerCondition::AttackersDeclaredMin { .. }
        | TriggerCondition::NoneOfAttackersTargetedYou
        | TriggerCondition::WasCast
        | TriggerCondition::AdditionalCostPaid { .. }
        | TriggerCondition::DealtDamageBySourceThisTurn
        | TriggerCondition::ZoneChangeObjectMatchesFilter { .. }
        | TriggerCondition::DuringPlayersTurn { .. }
        | TriggerCondition::ManaSpentCondition { .. }
        | TriggerCondition::ExceptFirstDrawInDrawStep => check_event_condition(
            state,
            condition,
            controller,
            source_id,
            trigger_event,
        ),
        TriggerCondition::MinCoAttackers { .. }
        | TriggerCondition::SolveConditionMet
        | TriggerCondition::SourceIsAttacking
        | TriggerCondition::SourceMatchesFilter { .. }
        | TriggerCondition::ControlsType { .. }
        | TriggerCondition::ControlsNone { .. }
        | TriggerCondition::NoSpellsCastLastTurn
        | TriggerCondition::TwoOrMoreSpellsCastLastTurn
        | TriggerCondition::ControlCount { .. }
        | TriggerCondition::FirstCombatPhaseOfTurn
        | TriggerCondition::QuantityComparison { .. }
        | TriggerCondition::DefendingPlayerControlsNone { .. }
        | TriggerCondition::CastDuringPhase { .. } => check_game_condition(
            state,
            condition,
            controller,
            source_id,
            trigger_event,
        ),
        TriggerCondition::And { conditions } => check_all(
            state,
            conditions,
            controller,
            source_id,
            trigger_event,
        ),
        TriggerCondition::Or { conditions } => check_any(
            state,
            conditions,
            controller,
            source_id,
            trigger_event,
        ),
        // CR 603.4 + CR 608.2c: Logical negation, for "unless [phrase]" patterns.
        TriggerCondition::Not { condition } => !check_trigger_condition(
            state,
            condition,
            controller,
            source_id,
            trigger_event,
        ),
    }
}

/// Whether a trigger key has been recorded.
pub fn holds_key(keys: &Vec<(ObjectId, usize)>, key: (ObjectId, usize)) -> (r: bool)
    ensures
        r == keys@.contains(key),
{
    let mut i: usize = 0;
    while i < keys.len()
        invariant
            i <= keys@.len(),
            forall|j: int| 0 <= j < i ==> keys@[j] != key,
        decreases keys@.len() - i,
    {
        if keys[i].0 == key.0 && keys[i].1 == key.1 {
            assert(keys@[i as int] == key);
            return true;
        }
        i = i + 1;
    }
    false
}

/// A sequence of keys with one more, unless it is there.
pub open spec fn with_key(keys: Seq<(ObjectId, usize)>, key: (ObjectId, usize)) -> Seq<
    (ObjectId, usize),
> {
    if keys.contains(key) {
        keys
    } else {
        keys.push(key)
    }
}

pub fn add_key(keys: &mut Vec<(ObjectId, usize)>, key: (ObjectId, usize))
    ensures
        final(keys)@ == with_key(old(keys)@, key),
{
    if !holds_key(keys, key) {
        keys.push(key);
    }
}

/// How often a trigger has fired this turn.
pub open spec fn times_fired(g: Game, key: (ObjectId, usize)) -> u32 {
    match at(g.trigger_fire_counts_this_turn, key) {
        None => 0,
        Some(n) => n,
    }
}

/// Whether a constraint lets a trigger fire on an event.
pub open spec fn constraint_allows(
    g: Game,
    constraint: TriggerConstraint,
    key: (ObjectId, usize),
    controller: PlayerId,
    event: GameEvent,
) -> bool {
    match constraint {
        TriggerConstraint::OncePerTurn => !g.triggers_fired_this_turn.contains(key),
        TriggerConstraint::OncePerGame => !g.triggers_fired_this_game.contains(key),
        TriggerConstraint::OnlyDuringYourTurn => g.active_player == controller,
        TriggerConstraint::OnlyDuringOpponentsTurn => g.active_player != controller,
        TriggerConstraint::OnlyDuringYourMainPhase => g.active_player == controller && (g.phase
            == Phase::PreCombatMain || g.phase == Phase::PostCombatMain),
        TriggerConstraint::NthSpellThisTurn { n, filter } => match event {
            GameEvent::SpellCast { controller: caster, .. } => n == match spells_cast_by(
                g,
                caster,
            ) {
                None => 0,
                Some(spells) => capped(count_casts(g, spells, filter, caster)),
            },
            _ => false,
        },
        TriggerConstraint::NthDrawThisTurn { n } => match event {
            GameEvent::CardDrawn { nth_in_turn, .. } => nth_in_turn == n,
            _ => false,
        },
        TriggerConstraint::AtClassLevel { level } => g.object(key.0) matches Some(o)
            && o.class_level == Some(level),
        TriggerConstraint::MaxTimesPerTurn { max } => times_fired(g, key) < max,
    }
}

/// Check whether a trigger's constraint allows it to fire.
///
/// `event` is the triggering event — needed by `NthSpellThisTurn` to identify
/// the caster and count their per-player spell total (not the global count).
pub fn check_trigger_constraint(
    state: &GameState,
    trig_def: &TriggerDefinition,
    obj_id: ObjectId,
    trig_idx: usize,
    controller: PlayerId,
    event: &GameEvent,
) -> (r: bool)
    ensures
        r == (trig_def.constraint is None || constraint_allows(
            state@,
            *trig_def.constraint->0,
            (obj_id, trig_idx),
            controller,
            *event,
        )),
{
    let constraint = match &trig_def.constraint {
        Some(c) => c,
        None => return true,
    };
    let key = (obj_id, trig_idx);
    match &**constraint {
        TriggerConstraint::OncePerTurn => !holds_key(&state.triggers_fired_this_turn, key),
        TriggerConstraint::OncePerGame => !holds_key(&state.triggers_fired_this_game, key),
        TriggerConstraint::OnlyDuringYourTurn => state.active_player == controller,
        TriggerConstraint::OnlyDuringOpponentsTurn => state.active_player != controller,
        // CR 505.1: Main phases are precombat and postcombat.
        TriggerConstraint::OnlyDuringYourMainPhase => state.active_player == controller && (
        state.phase == Phase::PreCombatMain || state.phase == Phase::PostCombatMain),
        // CR 603.2: Per-caster spell count.
        TriggerConstraint::NthSpellThisTurn { n, filter } => match event {
            GameEvent::SpellCast { controller: caster, .. } => {
                let count: u32 = match find_spells_cast(state, *caster) {
                    None => 0,
                    Some(spells) => number_of_casts(state, spells, filter, *caster),
                };
                count == *n
            },
            _ => false,
        },
        // CR 121.2: Use the ordinal stamped onto the individual draw event
        // rather than the final per-turn count after a multi-card draw batch.
        TriggerConstraint::NthDrawThisTurn { n } => match event {
            GameEvent::CardDrawn { nth_in_turn, .. } => *nth_in_turn == *n,
            _ => false,
        },
        // CR 716.2a: "When this Class becomes level N" — fire only at the specified level.
        TriggerConstraint::AtClassLevel { level } => match state.objects.get(&obj_id) {
            None => false,
            Some(o) => match o.class_level {
                None => false,
                Some(current) => current == *level,
            },
        },
        // CR 603.4: "This ability triggers only the first N times each turn."
        TriggerConstraint::MaxTimesPerTurn { max } => {
            let count: u32 = match state.trigger_fire_counts_this_turn.get(&key) {
                None => 0,
                Some(n) => *n,
            };
            count < *max
        },
    }
}

/// The game once a trigger with the given constraint has fired.
pub open spec fn firing_recorded(
    g: Game,
    constraint: Option<TriggerConstraint>,
    key: (ObjectId, usize),
) -> Game {
    match constraint {
        Some(TriggerConstraint::OncePerTurn) => Game {
            triggers_fired_this_turn: with_key(g.triggers_fired_this_turn, key),
            ..g
        },
        Some(TriggerConstraint::OncePerGame) => Game {
            triggers_fired_this_game: with_key(g.triggers_fired_this_game, key),
            ..g
        },
        Some(TriggerConstraint::MaxTimesPerTurn { .. }) => Game {
            trigger_fire_counts_this_turn: g.trigger_fire_counts_this_turn.insert(
                key,
                capped((times_fired(g, key) + 1) as nat),
            ),
            ..g
        },
        _ => g,
    }
}

/// An optional constraint behind its shared pointer.
pub open spec fn constraint_of(constraint: Option<std::rc::Rc<TriggerConstraint>>) -> Option<
    TriggerConstraint,
> {
    match constraint {
        None => None,
        Some(c) => Some(*c),
    }
}

/// Record that a constrained trigger has fired. The count for `MaxTimesPerTurn` is capped at
/// the largest `u32`.
pub fn record_trigger_fired(
    state: &mut GameState,
    constraint: &Option<std::rc::Rc<TriggerConstraint>>,
    obj_id: ObjectId,
    trig_idx: usize,
)
    ensures
        final(state)@ == firing_recorded(
            old(state)@,
            constraint_of(*constraint),
            (obj_id, trig_idx),
        ),
{
    let key = (obj_id, trig_idx);
    if let Some(c) = constraint {
        match &**c {
            TriggerConstraint::OncePerTurn => {
                add_key(&mut state.triggers_fired_this_turn, key);
            },
            TriggerConstraint::OncePerGame => {
                add_key(&mut state.triggers_fired_this_game, key);
            },
            // Checked at fire time via game/object state.
            TriggerConstraint::OnlyDuringYourTurn
            | TriggerConstraint::OnlyDuringOpponentsTurn
            | TriggerConstraint::OnlyDuringYourMainPhase
            | TriggerConstraint::NthSpellThisTurn { .. }
            | TriggerConstraint::NthDrawThisTurn { .. }
            | TriggerConstraint::AtClassLevel { .. } => {},
            // CR 603.4: Increment fire count for MaxTimesPerTurn tracking.
            TriggerConstraint::MaxTimesPerTurn { .. } => {
                let count: u32 = match state.trigger_fire_counts_this_turn.get(&key) {
                    None => 0,
                    Some(n) => *n,
                };
                state.trigger_fire_counts_this_turn.insert(key, count.saturating_add(1));
            },
        }
    }
}

proof fn lemma_all_hold(
    g: Game,
    conditions: List<TriggerCondition>,
    controller: PlayerId,
    source: Option<ObjectId>,
    event: Option<GameEvent>,
)
    ensures
        all_hold(g, conditions, controller, source, event) <==> (forall|i: int|
            0 <= i < conditions@.len() ==> condition_holds(
                g,
                #[trigger] conditions@[i],
                controller,
                source,
                event,
            )),
    decreases conditions,
{
    if conditions.node is Some {
        let rest = list_rest(conditions);
        lemma_all_hold(g, rest, controller, source, event);
        assert(conditions@ =~= seq![conditions@[0]] + rest@);
        if all_hold(g, conditions, controller, source, event) {
            assert forall|i: int| 0 <= i < conditions@.len() implies condition_holds(
                g,
                #[trigger] conditions@[i],
                controller,
                source,
                event,
            ) by {
                if i > 0 {
                    assert(conditions@[i] == rest@[i - 1]);
                }
            }
        } else if condition_holds(g, conditions@[0], controller, source, event) {
            let items = rest@;
            let i = choose|i: int|
                0 <= i < items.len() && !condition_holds(
                    g,
                    #[trigger] items[i],
                    controller,
                    source,
                    event,
                );
            assert(conditions@[i + 1] == items[i]);
        }
    }
}

proof fn lemma_some_hold(
    g: Game,
    conditions: List<TriggerCondition>,
    controller: PlayerId,
    source: Option<ObjectId>,
    event: Option<GameEvent>,
)
    ensures
        some_hold(g, conditions, controller, source, event) <==> (exists|i: int|
            0 <= i < conditions@.len() && condition_holds(
                g,
                #[trigger] conditions@[i],
                controller,
                source,
                event,
            )),
    decreases conditions,
{
    if conditions.node is Some {
        let rest = list_rest(conditions);
        lemma_some_hold(g, rest, controller, source, event);
        assert(conditions@ =~= seq![conditions@[0]] + rest@);
        if some_hold(g, conditions, controller, source, event) {
            if !condition_holds(g, conditions@[0], controller, source, event) {
                let items = rest@;
                let i = choose|i: int|
                    0 <= i < items.len() && condition_holds(
                        g,
                        #[trigger] items[i],
                        controller,
                        source,
                        event,
                    );
                assert(conditions@[i + 1] == items[i]);
            }
        } else {
            assert forall|i: int| 0 <= i < conditions@.len() implies !condition_holds(
                g,
                #[trigger] conditions@[i],
                controller,
                source,
                event,
            ) by {
                if i > 0 {
                    assert(conditions@[i] == rest@[i - 1]);
                }
            }
        }
    }
}

/// "And" holds when all of its conditions do, "or" when one of them does, and "not" when its
/// condition does not.
pub proof fn law_combinators(
    g: Game,
    conditions: List<TriggerCondition>,
    condition: std::rc::Rc<TriggerCondition>,
    controller: PlayerId,
    source: Option<ObjectId>,
    event: Option<GameEvent>,
)
    ensures
        condition_holds(g, TriggerCondition::And { conditions }, controller, source, event) <==> (
        forall|i: int|
            0 <= i < conditions@.len() ==> condition_holds(
                g,
                #[trigger] conditions@[i],
                controller,
                source,
                event,
            )),
        condition_holds(g, TriggerCondition::Or { conditions }, controller, source, event) <==> (
        exists|i: int|
            0 <= i < conditions@.len() && condition_holds(
                g,
                #[trigger] conditions@[i],
                controller,
                source,
                event,
            )),
        condition_holds(g, TriggerCondition::Not { condition }, controller, source, event)
            <==> !condition_holds(g, *condition, controller, source, event),
{
    lemma_all_hold(g, conditions, controller, source, event);
    lemma_some_hold(g, conditions, controller, source, event);
}

/// A trigger that may fire once a turn or once a game may not fire again once it has fired, and
/// one that may fire so many times a turn has one time less. The limits of other triggers are as
/// they were.
pub proof fn law_limits(
    g: Game,
    constraint: TriggerConstraint,
    key: (ObjectId, usize),
    other: (ObjectId, usize),
    controller: PlayerId,
    event: GameEvent,
)
    ensures
        ({
            let after = firing_recorded(g, Some(constraint), key);
            &&& constraint is OncePerTurn || constraint is OncePerGame ==> !constraint_allows(
                after,
                constraint,
                key,
                controller,
                event,
            )
            &&& constraint is MaxTimesPerTurn && times_fired(g, key) < u32::MAX ==> times_fired(
                after,
                key,
            ) == times_fired(g, key) + 1
            &&& other != key ==> times_fired(after, other) == times_fired(g, other)
            &&& other != key ==> (after.triggers_fired_this_turn.contains(other)
                <==> g.triggers_fired_this_turn.contains(other))
            &&& other != key ==> (after.triggers_fired_this_game.contains(other)
                <==> g.triggers_fired_this_game.contains(other))
        }),
{
    lemma_with_key(g.triggers_fired_this_turn, key, other);
    lemma_with_key(g.triggers_fired_this_game, key, other);
}

proof fn lemma_with_key(
    keys: Seq<(ObjectId, usize)>,
    key: (ObjectId, usize),
    other: (ObjectId, usize),
)
    ensures
        with_key(keys, key).contains(key),
        other != key ==> (with_key(keys, key).contains(other) <==> keys.contains(other)),
{
    let after = with_key(keys, key);
    if !keys.contains(key) {
        assert(after[keys.len() as int] == key);
        if keys.contains(other) {
            let i = choose|i: int| 0 <= i < keys.len() && keys[i] == other;
            assert(after[i] == other);
        }
    }
}

} // verus!
